//! Graph input data and per-node display payload.

use vstd::prelude::*;

verus! {

/// A node of the input graph.
#[derive(Clone, Debug)]
pub struct GraphNode {
    /// Unique identifier for this node. Used to reference nodes in links.
    pub id: String,
    /// Optional display label.
    pub label: Option<String>,
    /// Optional CSS color override (e.g., "#ff0000" or "rgb(255, 0, 0)").
    /// If not set, color is derived from the palette based on `group`.
    pub color: Option<String>,
    /// Optional group index for palette-based coloring.
    pub group: Option<u32>,
}

/// A directed edge between two nodes, by their identifiers.
#[derive(Clone, Debug)]
pub struct GraphLink {
    /// Source node ID.
    pub source: String,
    /// Target node ID.
    pub target: String,
}

/// Complete graph data: nodes and links.
#[derive(Clone, Debug)]
pub struct GraphData {
    pub nodes: Vec<GraphNode>,
    pub links: Vec<GraphLink>,
}

impl Default for GraphData {
    /// The empty graph.
    fn default() -> (r: GraphData)
        ensures
            r.nodes@.len() == 0,
            r.links@.len() == 0,
    {
        GraphData { nodes: Vec::new(), links: Vec::new() }
    }
}

/// Display payload carried by every simulated node.
#[derive(Clone, Debug)]
pub struct NodeInfo {
    /// Optional display label.
    pub label: Option<String>,
    /// Resolved CSS color string.
    pub color: String,
    /// Radius multiplier in milli units (one unit is 1000).
    pub size: i64,
}

impl Default for NodeInfo {
    /// No label, empty color, unit size.
    fn default() -> (r: NodeInfo)
        ensures
            r.label is None,
            r.color@.len() == 0,
            r.size == 1000,
    {
        NodeInfo { label: None, color: String::new(), size: 1000 }
    }
}

} // verus!
