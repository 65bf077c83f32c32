//! Two majority configurations that must both agree.
use std::collections::{HashMap, HashSet};

use vstd::prelude::*;

use crate::quorum::{AckedIndexer, JointView, MajorityConfig, VoteResult};
use crate::{quorum, sets};

verus! {

/// A pair of majority configurations whose decisions need both. Outside a membership change the
/// outgoing half is empty and the incoming half decides alone.
#[derive(Debug, PartialEq, Eq)]
pub struct JointConfig {
    /// The configuration that is being entered, or the only one.
    pub incoming: MajorityConfig,
    /// The configuration that is being left, empty when there is none.
    pub outgoing: MajorityConfig,
}

impl View for JointConfig {
    type V = JointView;

    open spec fn view(&self) -> JointView {
        JointView { incoming: self.incoming@, outgoing: self.outgoing@ }
    }
}

impl Default for JointConfig {
    fn default() -> (c: Self)
        ensures
            c@ == (JointView { incoming: Set::empty(), outgoing: Set::empty() }),
    {
        JointConfig { incoming: MajorityConfig::default(), outgoing: MajorityConfig::default() }
    }
}

impl Clone for JointConfig {
    fn clone(&self) -> (c: Self)
        ensures
            c@ == self@,
    {
        JointConfig { incoming: self.incoming.clone(), outgoing: self.outgoing.clone() }
    }
}

impl JointConfig {
    /// The configuration with the given voters and no outgoing half.
    pub fn new(voters: HashSet<u64>) -> (c: Self)
        ensures
            c@ == (JointView { incoming: voters@, outgoing: Set::empty() }),
    {
        JointConfig { incoming: MajorityConfig::new(voters), outgoing: MajorityConfig::default() }
    }

    /// An empty configuration with room for `cap` voters.
    pub fn with_capacity(cap: usize) -> (c: Self)
        ensures
            c@ == (JointView { incoming: Set::empty(), outgoing: Set::empty() }),
    {
        JointConfig {
            incoming: MajorityConfig::with_capacity(cap),
            outgoing: MajorityConfig::default(),
        }
    }

    /// Whether there is exactly one voter and no outgoing half.
    pub fn is_singleton(&self) -> (b: bool)
        ensures
            b == (self@.outgoing.is_empty() && self@.incoming.len() == 1),
    {
        self.outgoing.is_empty() && self.incoming.len() == 1
    }

    /// The voters of either half.
    pub fn ids(&self) -> (ids: HashSet<u64>)
        ensures
            ids@ == self@.ids(),
    {
        let mut ids = sets::copy(&self.incoming.voters);
        let out = sets::to_vec(&self.outgoing.voters);
        sets::insert_all(&mut ids, out.as_slice());
        ids
    }

    /// Whether `id` is a voter of either half.
    pub fn contains(&self, id: u64) -> (b: bool)
        ensures
            b == self@.ids().contains(id),
    {
        self.incoming.contains(id) || self.outgoing.contains(id)
    }

    /// Removes all voters.
    pub fn clear(&mut self)
        ensures
            final(self)@ == (JointView { incoming: Set::empty(), outgoing: Set::empty() }),
    {
        self.incoming.clear();
        self.outgoing.clear();
    }

    /// The greatest index that both halves have committed, and whether commit groups decided it in
    /// both.
    pub fn committed_index<L: AckedIndexer>(&self, use_group_commit: bool, l: &L) -> (r: (
        u64,
        bool,
    ))
        ensures
            r == self@.committed(l.acks(), use_group_commit),
    {
        let (i, i_groups) = self.incoming.committed_index(use_group_commit, l);
        let (o, o_groups) = self.outgoing.committed_index(use_group_commit, l);
        (
            if i <= o {
                i
            } else {
                o
            },
            i_groups && o_groups,
        )
    }

    /// The outcome of the election that `votes` record.
    pub fn vote_result(&self, votes: &HashMap<u64, bool>) -> (r: VoteResult)
        ensures
            r == self@.vote(votes@),
    {
        self.vote_result_with_diff(votes).0
    }

    /// The outcome of the election that `votes` record, and how many more votes would win each
    /// half: `[incoming, outgoing]`.
    pub fn vote_result_with_diff(&self, votes: &HashMap<u64, bool>) -> (r: (
        VoteResult,
        [usize; 2],
    ))
        ensures
            r.0 == self@.vote(votes@),
            r.1@[0] == quorum::votes_needed(self@.incoming, votes@),
            r.1@[1] == quorum::votes_needed(self@.outgoing, votes@),
    {
        let (i, i_diff) = self.incoming.vote_result_with_diff(votes);
        let (o, o_diff) = self.outgoing.vote_result_with_diff(votes);
        let result = match (i, o) {
            (VoteResult::Won, VoteResult::Won) => VoteResult::Won,
            (VoteResult::Lost, _) => VoteResult::Lost,
            (_, VoteResult::Lost) => VoteResult::Lost,
            _ => VoteResult::Pending,
        };
        (result, [i_diff, o_diff])
    }
}

}
