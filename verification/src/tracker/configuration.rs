//! The membership of the cluster.
use std::collections::HashSet;

use vstd::prelude::*;
use vstd::string::*;

use crate::eraftpb::ConfState;
use crate::quorum::{JointConfig, JointView};
use crate::sets;
use crate::tracker::render;

verus! {

/// The membership of the cluster.
#[derive(Debug, PartialEq, Eq)]
pub struct Configuration {
    /// The voters, in two halves during a membership change.
    pub voters: JointConfig,
    /// The learners. No node is to be a learner and a voter of either half at once, so that the
    /// role of a node is clear without regard to a membership change.
    pub learners: HashSet<u64>,
    /// The voters of the outgoing half that become learners when the joint configuration is left.
    /// They cannot be learners before that: they are voters still. A learner that is no voter is
    /// in `learners` right away, so that it catches up as soon as possible.
    pub learners_next: HashSet<u64>,
    /// Whether the joint configuration is to be left automatically, as soon as that is possible.
    pub auto_leave: bool,
    /// The witnesses of the incoming and the outgoing half, 0 for none.
    pub witnesses: [u64; 2],
}

/// A membership in the abstract.
#[verifier::ext_equal]
pub struct ConfigurationView {
    pub voters: JointView,
    pub learners: Set<u64>,
    pub learners_next: Set<u64>,
    pub auto_leave: bool,
    pub witnesses: Seq<u64>,
}

impl View for Configuration {
    type V = ConfigurationView;

    open spec fn view(&self) -> ConfigurationView {
        ConfigurationView {
            voters: self.voters@,
            learners: self.learners@,
            learners_next: self.learners_next@,
            auto_leave: self.auto_leave,
            witnesses: self.witnesses@,
        }
    }
}

impl ConfigurationView {
    /// The membership with the given voters and learners, outside any change.
    pub open spec fn simple(voters: Set<u64>, learners: Set<u64>) -> ConfigurationView {
        ConfigurationView {
            voters: JointView { incoming: voters, outgoing: Set::empty() },
            learners,
            learners_next: Set::empty(),
            auto_leave: false,
            witnesses: seq![0, 0],
        }
    }

    /// No learner is a voter.
    pub open spec fn roles_are_clear(self) -> bool {
        self.learners.disjoint(self.voters.ids())
    }

    /// The membership as text.
    pub open spec fn text(self) -> Seq<char> {
        let voters = if self.voters.outgoing.is_empty() {
            "voters="@ + render::set_text(self.voters.incoming)
        } else {
            "voters="@ + render::set_text(self.voters.incoming) + "&&"@ + render::set_text(
                self.voters.outgoing,
            )
        };
        let learners = if self.learners.is_empty() {
            Seq::empty()
        } else {
            " learners="@ + render::set_text(self.learners)
        };
        let learners_next = if self.learners_next.is_empty() {
            Seq::empty()
        } else {
            " learners_next="@ + render::set_text(self.learners_next)
        };
        let auto_leave = if self.auto_leave {
            " autoleave"@
        } else {
            Seq::empty()
        };
        voters + learners + learners_next + auto_leave
    }

    /// `state` records this membership, each list in some order.
    pub open spec fn recorded_as(self, state: ConfState) -> bool {
        &&& sets::enumerates(state.voters@, self.voters.incoming)
        &&& sets::enumerates(state.voters_outgoing@, self.voters.outgoing)
        &&& sets::enumerates(state.learners@, self.learners)
        &&& sets::enumerates(state.learners_next@, self.learners_next)
        &&& state.auto_leave == self.auto_leave
        &&& state.witness == self.witnesses[0]
        &&& state.witness_outgoing == self.witnesses[1]
    }
}

impl Default for Configuration {
    fn default() -> (c: Self)
        ensures
            c@ == ConfigurationView::simple(Set::empty(), Set::empty()),
    {
        Configuration::with_capacity(0, 0)
    }
}

impl Clone for Configuration {
    fn clone(&self) -> (c: Self)
        ensures
            c@ == self@,
    {
        Configuration {
            voters: self.voters.clone(),
            learners: sets::copy(&self.learners),
            learners_next: sets::copy(&self.learners_next),
            auto_leave: self.auto_leave,
            witnesses: self.witnesses,
        }
    }
}

impl Configuration {
    /// The membership with the given voters and learners. Repeated identifiers count once.
    pub fn new(voters: Vec<u64>, learners: Vec<u64>) -> (c: Self)
        ensures
            c@ == ConfigurationView::simple(voters@.to_set(), learners@.to_set()),
    {
        Configuration {
            voters: JointConfig::new(sets::from_slice(voters.as_slice())),
            auto_leave: false,
            learners: sets::from_slice(learners.as_slice()),
            learners_next: HashSet::new(),
            witnesses: [0, 0],
        }
    }

    /// An empty membership with room for the given numbers of voters and learners.
    pub(crate) fn with_capacity(voters: usize, learners: usize) -> (c: Self)
        ensures
            c@ == ConfigurationView::simple(Set::empty(), Set::empty()),
    {
        Configuration {
            voters: JointConfig::with_capacity(voters),
            learners: HashSet::with_capacity(learners),
            learners_next: HashSet::new(),
            auto_leave: false,
            witnesses: [0, 0],
        }
    }

    /// The voters.
    pub fn voters(&self) -> (r: &JointConfig)
        ensures
            r@ == self@.voters,
    {
        &self.voters
    }

    /// The learners.
    pub fn learners(&self) -> (r: &HashSet<u64>)
        ensures
            r@ == self@.learners,
    {
        &self.learners
    }

    /// The voters that become learners when the joint configuration is left.
    pub fn learners_next(&self) -> (r: &HashSet<u64>)
        ensures
            r@ == self@.learners_next,
    {
        &self.learners_next
    }

    /// Whether the joint configuration is to be left automatically.
    pub fn auto_leave(&self) -> (r: &bool)
        ensures
            *r == self@.auto_leave,
    {
        &self.auto_leave
    }

    /// The membership as a record. The lists are not sorted.
    pub fn to_conf_state(&self) -> (state: ConfState)
        ensures
            self@.recorded_as(state),
    {
        ConfState {
            voters: self.voters.incoming.raw_slice(),
            voters_outgoing: self.voters.outgoing.raw_slice(),
            learners: sets::to_vec(&self.learners),
            learners_next: sets::to_vec(&self.learners_next),
            auto_leave: self.auto_leave,
            witness: self.witnesses[0],
            witness_outgoing: self.witnesses[1],
        }
    }

    /// The membership as text, such as `voters=(1 2)&&(1 2 3) learners_next=(3) autoleave`.
    pub fn to_string(&self) -> (s: String)
        ensures
            s@ == self@.text(),
    {
        let mut s = String::new();
        s.append("voters=");
        render::push_set(&mut s, &self.voters.incoming.voters);
        if !self.voters.outgoing.is_empty() {
            s.append("&&");
            render::push_set(&mut s, &self.voters.outgoing.voters);
        }
        if !self.learners.is_empty() {
            s.append(" learners=");
            render::push_set(&mut s, &self.learners);
        }
        if !self.learners_next.is_empty() {
            s.append(" learners_next=");
            render::push_set(&mut s, &self.learners_next);
        }
        if self.auto_leave {
            s.append(" autoleave");
        }
        assert(s@ =~= self@.text());
        s
    }

    /// Removes all members.
    pub(crate) fn clear(&mut self)
        ensures
            final(self)@ == ConfigurationView::simple(Set::empty(), Set::empty()),
    {
        self.voters.clear();
        self.learners.clear();
        self.learners_next.clear();
        self.auto_leave = false;
        self.witnesses = [0, 0];
    }
}

}
