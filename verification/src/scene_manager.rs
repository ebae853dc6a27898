//! Scenes: node identifiers, nodes and the scene tree that holds them.
use vstd::prelude::*;

use crate::genmap::Handle;

pub mod node;
pub mod scene_tree;

verus! {

/// Identifies a node of the scene tree; it wraps the handle under which
/// the tree stores the node.
#[derive(Debug, Copy, Clone, PartialEq, Eq, Hash, Structural)]
pub struct NodeId(pub Handle);

impl NodeId {
    /// The id that a node carries before it is inserted into a tree.
    pub open spec fn spec_placeholder() -> NodeId {
        NodeId(Handle { gen: usize::MAX, idx: usize::MAX })
    }

    /// The id that a node carries before it is inserted into a tree.
    pub fn placeholder() -> (res: NodeId)
        ensures
            res == Self::spec_placeholder(),
    {
        NodeId(Handle { gen: usize::MAX, idx: usize::MAX })
    }

    /// Creates a new `NodeId` with the generation of it being 0.
    pub fn from_idx(idx: u32) -> (res: Self)
        ensures
            res.0.gen == 0,
            res.0.idx == idx,
    {
        NodeId(Handle { gen: 0, idx: idx as usize })
    }

    /// The slot index of the node.
    pub fn idx(&self) -> (res: usize)
        ensures
            res == self.0.idx,
    {
        self.0.idx
    }
}

} // verus!
