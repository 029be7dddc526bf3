//! The graph store: nodes with simulation state, and directed edges.
//!
//! Insertion order is preserved and is the traversal order everywhere:
//! later-inserted nodes draw on top.  Node indices are dense, stable for
//! the life of the store, and never reused.  Coordinates, velocities and
//! sizes are fixed-point milli values.

use vstd::prelude::*;
use crate::types::NodeInfo;

verus! {

/// Positions stay within this many milli units of the origin.
pub const POS_LIMIT: i64 = 1_000_000_000;

/// Velocities stay within this many milli units per second.
pub const VEL_LIMIT: i64 = 1_000_000_000;

/// Masses lie in `[1, MASS_LIMIT]` plain units.
pub const MASS_LIMIT: i64 = 1000;

/// Node size multipliers lie in `[1, SIZE_LIMIT]` milli units.
pub const SIZE_LIMIT: i64 = 10_000;

/// A store never holds more nodes than this.
pub const NODE_LIMIT: usize = 100_000;

/// One simulated node.
pub struct SimNode {
    /// World-space position, milli units.
    pub x: i64,
    pub y: i64,
    /// Velocity, milli units per second.
    pub vx: i64,
    pub vy: i64,
    /// Mass, plain units; heavier nodes respond less.
    pub mass: i64,
    /// Anchored nodes are never repositioned by the integrator, though
    /// they still exert forces on others.
    pub is_anchor: bool,
    /// Display payload.
    pub info: NodeInfo,
}

/// Field bounds every stored node satisfies.
pub open spec fn node_wf(n: SimNode) -> bool {
    &&& -POS_LIMIT <= n.x <= POS_LIMIT
    &&& -POS_LIMIT <= n.y <= POS_LIMIT
    &&& -VEL_LIMIT <= n.vx <= VEL_LIMIT
    &&& -VEL_LIMIT <= n.vy <= VEL_LIMIT
    &&& 1 <= n.mass <= MASS_LIMIT
    &&& 1 <= n.info.size <= SIZE_LIMIT
}

/// The node and edge collection.
pub struct GraphStore {
    pub nodes: Vec<SimNode>,
    /// Directed edges as `(source, target)` index pairs.
    pub edges: Vec<(usize, usize)>,
}

impl GraphStore {
    /// Every node is in bounds and every edge points at stored nodes.
    pub open spec fn wf(&self) -> bool {
        &&& self.nodes@.len() <= NODE_LIMIT
        &&& forall|i: int| 0 <= i < self.nodes@.len() ==> node_wf(#[trigger] self.nodes@[i])
        &&& forall|e: int|
            0 <= e < self.edges@.len() ==> (#[trigger] self.edges@[e]).0 < self.nodes@.len()
                && self.edges@[e].1 < self.nodes@.len()
    }

    /// An empty store.
    pub fn new() -> (s: GraphStore)
        ensures
            s.wf(),
            s.nodes@.len() == 0,
            s.edges@.len() == 0,
    {
        GraphStore { nodes: Vec::new(), edges: Vec::new() }
    }

    /// Number of nodes.
    pub fn node_count(&self) -> (n: usize)
        ensures
            n == self.nodes@.len(),
    {
        self.nodes.len()
    }

    /// Number of edges.
    pub fn edge_count(&self) -> (n: usize)
        ensures
            n == self.edges@.len(),
    {
        self.edges.len()
    }

    /// Append a node; its index is the previous node count.
    pub fn add_node(&mut self, node: SimNode) -> (idx: usize)
        requires
            old(self).wf(),
            old(self).nodes@.len() < NODE_LIMIT,
            node_wf(node),
        ensures
            final(self).wf(),
            final(self).nodes@ == old(self).nodes@.push(node),
            final(self).edges@ == old(self).edges@,
            idx == old(self).nodes@.len(),
    {
        let idx = self.nodes.len();
        self.nodes.push(node);
        idx
    }

    /// Append an edge; silently dropped when either endpoint is not a
    /// stored node index.
    pub fn add_edge(&mut self, src: usize, tgt: usize)
        requires
            old(self).wf(),
        ensures
            final(self).wf(),
            final(self).nodes@ == old(self).nodes@,
            final(self).edges@ == if src < old(self).nodes@.len() && tgt < old(
                self,
            ).nodes@.len() {
                old(self).edges@.push((src, tgt))
            } else {
                old(self).edges@
            },
    {
        if src < self.nodes.len() && tgt < self.nodes.len() {
            self.edges.push((src, tgt));
        }
    }

    /// Borrow node `i`.
    pub fn node(&self, i: usize) -> (n: &SimNode)
        requires
            i < self.nodes@.len(),
        ensures
            *n == self.nodes@[i as int],
    {
        &self.nodes[i]
    }

    /// Borrow edge `e`.
    pub fn edge(&self, e: usize) -> (p: (usize, usize))
        requires
            e < self.edges@.len(),
        ensures
            p == self.edges@[e as int],
    {
        self.edges[e]
    }

    /// Whether nodes `a` and `b` are joined by an edge in either
    /// direction.
    pub open spec fn connects(&self, a: int, b: int) -> bool {
        exists|e: int|
            0 <= e < self.edges@.len() && ((#[trigger] self.edges@[e]).0 == a
                && self.edges@[e].1 == b || self.edges@[e].0 == b && self.edges@[e].1 == a)
    }
}

/// Mutable access to one element of a node vector.
pub fn node_mut<'a>(v: &'a mut Vec<SimNode>, i: usize) -> (r: &'a mut SimNode)
    requires
        i < old(v).len(),
    ensures
        *r == old(v)@[i as int],
        final(v)@ == old(v)@.update(i as int, *final(r)),
{
    &mut v[i]
}

} // verus!
