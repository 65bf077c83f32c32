//! What a membership change does to the nodes whose progress is tracked.
use vstd::prelude::*;

verus! {

/// Whether a node enters or leaves the tracked nodes.
#[derive(Clone, Copy, Debug, PartialEq, Eq, Structural)]
pub enum MapChangeType {
    /// The node is added, or starts anew.
    Add,
    /// The node is removed.
    Remove,
}

/// Changes to the tracked nodes, in the order in which they apply.
pub type MapChange = Vec<(u64, MapChangeType)>;

}
