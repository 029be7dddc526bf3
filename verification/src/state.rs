//! The engine state: graph, view, interaction and highlight, with every
//! entry point the host shell drives per frame or per pointer event.
//!
//! A pointer press starts exactly one of a drag (when a node is under
//! the pointer) or a pan; dragging pins the node where it is dropped.
//! Hit-testing works in world space with a fixed radius, so picking is
//! zoom-invariant in screen space.

use vstd::prelude::*;
use crate::color::{palette_color, spec_palette};
use crate::fixed::{spec_clamp, spec_abs, clamp64, mul_div, sin_wave, spec_sin_wave};
use crate::graph::{GraphStore, SimNode, node_mut, POS_LIMIT, NODE_LIMIT};
use crate::highlight::{HoverState, set_hover_rel, advance_rel};
use crate::physics::{SimParams, integrate, spec_tick_node, DT_LIMIT};
use crate::transform::{
    ViewTransform,
    spec_s2w,
    spec_w2s,
    spec_zoom_k,
    spec_zoom_t,
    lemma_rescale_error,
    SCREEN_LIMIT,
    TRANSLATE_LIMIT,
};
use crate::types::{GraphData, GraphNode, NodeInfo};

verus! {

/// Base node radius, milli world units.
pub const NODE_RADIUS: i64 = 5_000;

/// Hit-test radius, milli world units: larger than the visual radius to
/// ease targeting.
pub const HIT_RADIUS: i64 = 12_000;

/// The hit-test radius squared.
pub const HIT_RADIUS_SQ: i64 = 144_000_000;

/// Canvas dimensions stay within this many milli units.
pub const DIM_LIMIT: i64 = 1_000_000_000;

/// The flow clock saturates here, milliseconds.
pub const FLOW_LIMIT: i64 = 1_000_000_000_000;

/// Default node mass.
pub const DEFAULT_MASS: i64 = 10;

/// Separation (per axis, milli world units) under which two nodes'
/// pick regions may overlap: the hit radius plus the worst round-trip
/// rounding error.
pub const PICK_SEPARATION: i64 = 12_011;

/// An active drag: which node, where the pointer started, and where the
/// node was.
pub struct DragState {
    pub active: bool,
    pub node_idx: Option<usize>,
    /// Pointer position at press, milli screen units.
    pub start_x: i64,
    pub start_y: i64,
    /// Node position at press, milli world units.
    pub node_start_x: i64,
    pub node_start_y: i64,
}

/// An active pan: where the pointer started and what the translation
/// was.
pub struct PanState {
    pub active: bool,
    /// Pointer position at press, milli screen units.
    pub start_x: i64,
    pub start_y: i64,
    /// Translation at press, milli units.
    pub transform_start_x: i64,
    pub transform_start_y: i64,
}

/// The whole engine state.
pub struct ForceGraphState {
    pub graph: GraphStore,
    pub params: SimParams,
    pub transform: ViewTransform,
    pub drag: DragState,
    pub pan: PanState,
    pub hover: HoverState,
    /// Canvas size, milli units.
    pub width: i64,
    pub height: i64,
    /// Whether the animation loop should advance this state.
    pub animation_running: bool,
    /// Elapsed animation time, milliseconds, saturating.
    pub flow_time: i64,
}

/// Startup position of node `i` of `n` on the placement ring,
/// horizontal axis: canvas center plus a tenth of a unit of the ring
/// wave a quarter turn ahead.
pub open spec fn spec_ring_x(width: int, i: int, n: int) -> int {
    width / 2 + 100 * spec_sin_wave((i * 1000 / n + 250) % 1000)
}

/// Startup position on the vertical axis: canvas center plus a tenth of
/// a unit of the ring wave.
pub open spec fn spec_ring_y(height: int, i: int, n: int) -> int {
    height / 2 + 100 * spec_sin_wave((i * 1000 / n) % 1000)
}

/// The color a graph node resolves to: its own, else its group's
/// palette entry, else the first palette entry.
pub open spec fn spec_node_color(gn: GraphNode) -> Seq<char> {
    match gn.color {
        Some(c) => c@,
        None => match gn.group {
            Some(g) => spec_palette(g as int % 10),
            None => spec_palette(0),
        },
    }
}

/// The display size a graph node resolves to: labeled nodes render
/// larger.
pub open spec fn spec_node_size(gn: GraphNode) -> int {
    if gn.label is Some {
        1300
    } else {
        1000
    }
}

/// The index of the last graph node carrying `id`, if any: identifiers
/// are resolved with the latest occurrence winning.
pub open spec fn spec_find_id(nodes: Seq<GraphNode>, id: Seq<char>) -> Option<int>
    decreases nodes.len(),
{
    if nodes.len() == 0 {
        None
    } else if nodes.last().id@ == id {
        Some(nodes.len() - 1)
    } else {
        spec_find_id(nodes.drop_last(), id)
    }
}

/// The edges the first `k` links resolve to: a link whose endpoints both
/// name stored nodes becomes an edge, all others are silently dropped.
pub open spec fn spec_resolved_edges(
    gnodes: Seq<GraphNode>,
    links: Seq<crate::types::GraphLink>,
    k: int,
) -> Seq<(usize, usize)>
    decreases k,
{
    if k <= 0 {
        Seq::empty()
    } else {
        let prev = spec_resolved_edges(gnodes, links, k - 1);
        let s = spec_find_id(gnodes, links[k - 1].source@);
        let t = spec_find_id(gnodes, links[k - 1].target@);
        match (s, t) {
            (Some(si), Some(ti)) => prev.push((si as usize, ti as usize)),
            _ => prev,
        }
    }
}

/// Find the last node with the given identifier.
fn find_by_id(nodes: &Vec<GraphNode>, id: &String) -> (r: Option<usize>)
    ensures
        match r {
            Some(v) => spec_find_id(nodes@, id@) == Some(v as int) && v < nodes@.len(),
            None => spec_find_id(nodes@, id@) is None,
        },
{
    proof {
        assert(nodes@.subrange(0, nodes@.len() as int) =~= nodes@);
    }
    let mut i = nodes.len();
    while i > 0
        invariant
            i <= nodes@.len(),
            spec_find_id(nodes@, id@) == spec_find_id(nodes@.subrange(0, i as int), id@),
        decreases i,
    {
        let i2 = i - 1;
        let ghost pre = nodes@.subrange(0, i as int);
        proof {
            assert(pre.last() == nodes@[i2 as int]);
            assert(pre.drop_last() =~= nodes@.subrange(0, i2 as int));
        }
        if nodes[i2].id == *id {
            return Some(i2);
        }
        i = i2;
    }
    proof {
        assert(nodes@.subrange(0, 0) =~= Seq::<GraphNode>::empty());
    }
    None
}

/// Whether the pointer at world point `(gx, gy)` lands on node `n`.
pub open spec fn spec_hit(n: SimNode, gx: int, gy: int) -> bool {
    (n.x - gx) * (n.x - gx) + (n.y - gy) * (n.y - gy) < HIT_RADIUS_SQ as int
}

/// The hit-test answer over nodes `0..j`: the last one under the
/// pointer, top-most in draw order.
pub open spec fn spec_hit_scan(nodes: Seq<SimNode>, gx: int, gy: int, j: int) -> Option<int>
    decreases j,
{
    if j <= 0 {
        None
    } else if spec_hit(nodes[j - 1], gx, gy) {
        Some(j - 1)
    } else {
        spec_hit_scan(nodes, gx, gy, j - 1)
    }
}

/// The hit-test answer as a node index.
pub open spec fn spec_hit_opt(nodes: Seq<SimNode>, gx: int, gy: int) -> Option<usize> {
    match spec_hit_scan(nodes, gx, gy, nodes.len() as int) {
        Some(i) => Some(i as usize),
        None => None,
    }
}

impl ForceGraphState {
    /// All parts well-formed, and the interaction records within the
    /// coordinate ranges the arithmetic is verified for.
    pub open spec fn wf(&self) -> bool {
        &&& self.graph.wf()
        &&& self.transform.wf()
        &&& self.hover.wf(self.graph.edges@, self.graph.nodes@.len())
        &&& self.params.wf()
        &&& 0 <= self.width <= DIM_LIMIT
        &&& 0 <= self.height <= DIM_LIMIT
        &&& 0 <= self.flow_time <= FLOW_LIMIT
        &&& spec_abs(self.drag.start_x as int) <= SCREEN_LIMIT as int
        &&& spec_abs(self.drag.start_y as int) <= SCREEN_LIMIT as int
        &&& spec_abs(self.drag.node_start_x as int) <= POS_LIMIT as int
        &&& spec_abs(self.drag.node_start_y as int) <= POS_LIMIT as int
        &&& (self.drag.active ==> match self.drag.node_idx {
            Some(i) => i < self.graph.nodes@.len(),
            None => false,
        })
        &&& spec_abs(self.pan.start_x as int) <= SCREEN_LIMIT as int
        &&& spec_abs(self.pan.start_y as int) <= SCREEN_LIMIT as int
        &&& spec_abs(self.pan.transform_start_x as int) <= TRANSLATE_LIMIT as int
        &&& spec_abs(self.pan.transform_start_y as int) <= TRANSLATE_LIMIT as int
    }

    /// Build the engine state from input data.
    ///
    /// Nodes are placed on a ring around the canvas center; identifiers
    /// are resolved to indices with the last occurrence winning, and
    /// links with an unresolvable endpoint are dropped without error.
    /// The view starts centered at unit zoom.
    pub fn new(data: &GraphData, width: i64, height: i64) -> (s: ForceGraphState)
        requires
            data.nodes@.len() <= NODE_LIMIT,
            0 <= width <= DIM_LIMIT,
            0 <= height <= DIM_LIMIT,
        ensures
            s.wf(),
            s.graph.nodes@.len() == data.nodes@.len(),
            forall|i: int|
                0 <= i < data.nodes@.len() ==> {
                    let nd = #[trigger] s.graph.nodes@[i];
                    &&& nd.x == spec_ring_x(width as int, i, data.nodes@.len() as int)
                    &&& nd.y == spec_ring_y(height as int, i, data.nodes@.len() as int)
                    &&& nd.vx == 0 && nd.vy == 0
                    &&& nd.mass == DEFAULT_MASS
                    &&& !nd.is_anchor
                    &&& nd.info.label == data.nodes@[i].label
                    &&& nd.info.color@ == spec_node_color(data.nodes@[i])
                    &&& nd.info.size == spec_node_size(data.nodes@[i])
                },
            s.graph.edges@ == spec_resolved_edges(
                data.nodes@,
                data.links@,
                data.links@.len() as int,
            ),
            s.transform.x == width / 2 && s.transform.y == height / 2 && s.transform.k == 1000,
            s.hover.node is None && s.hover.prev_node is None && s.hover.highlight_t == 0,
            !s.drag.active && !s.pan.active,
            s.width == width && s.height == height,
            s.animation_running,
            s.flow_time == 0,
    {
        let n = data.nodes.len();
        let mut store = GraphStore::new();
        let mut i: usize = 0;
        while i < n
            invariant
                i <= n == data.nodes@.len(),
                n <= NODE_LIMIT,
                0 <= width <= DIM_LIMIT,
                0 <= height <= DIM_LIMIT,
                store.wf(),
                store.nodes@.len() == i,
                store.edges@.len() == 0,
                forall|q: int|
                    0 <= q < i ==> {
                        let nd = #[trigger] store.nodes@[q];
                        &&& nd.x == spec_ring_x(width as int, q, n as int)
                        &&& nd.y == spec_ring_y(height as int, q, n as int)
                        &&& nd.vx == 0 && nd.vy == 0
                        &&& nd.mass == DEFAULT_MASS
                        &&& !nd.is_anchor
                        &&& nd.info.label == data.nodes@[q].label
                        &&& nd.info.color@ == spec_node_color(data.nodes@[q])
                        &&& nd.info.size == spec_node_size(data.nodes@[q])
                    },
            decreases n - i,
        {
            let gn = &data.nodes[i];
            let color: String = match &gn.color {
                Some(c) => c.clone(),
                None => match gn.group {
                    Some(g) => String::from_str(palette_color(g)),
                    None => String::from_str(palette_color(0)),
                },
            };
            let label: Option<String> = match &gn.label {
                Some(l) => Some(l.clone()),
                None => None,
            };
            let size: i64 = if label.is_some() {
                1300
            } else {
                1000
            };
            let ang: usize = i * 1000 / n;
            let wave_y = sin_wave(ang as i64);
            let wave_x = sin_wave(ang as i64 + 250);
            let x = (width as u64 / 2) as i64 + 100 * wave_x;
            let y = (height as u64 / 2) as i64 + 100 * wave_y;
            store.add_node(
                SimNode {
                    x,
                    y,
                    vx: 0,
                    vy: 0,
                    mass: DEFAULT_MASS,
                    is_anchor: false,
                    info: NodeInfo { label, color, size },
                },
            );
            i = i + 1;
        }
        let m = data.links.len();
        let ghost built = store.nodes@;
        let mut e: usize = 0;
        while e < m
            invariant
                e <= m == data.links@.len(),
                store.wf(),
                store.nodes@ == built,
                store.nodes@.len() == n,
                store.edges@ == spec_resolved_edges(data.nodes@, data.links@, e as int),
                data.nodes@.len() == n,
            decreases m - e,
        {
            let link = &data.links[e];
            let s = find_by_id(&data.nodes, &link.source);
            let t = find_by_id(&data.nodes, &link.target);
            match (s, t) {
                (Some(si), Some(ti)) => {
                    store.add_edge(si, ti);
                },
                _ => {},
            }
            e = e + 1;
        }
        let hover = HoverState::new(n);
        proof {
            assert(hover.neighbors@ =~= crate::highlight::spec_mask(
                None,
                store.edges@,
                n as nat,
            ));
            assert(hover.prev_neighbors@ =~= crate::highlight::spec_mask(
                None,
                store.edges@,
                n as nat,
            ));
        }
        ForceGraphState {
            graph: store,
            params: SimParams::defaults(),
            transform: ViewTransform {
                x: (width as u64 / 2) as i64,
                y: (height as u64 / 2) as i64,
                k: 1000,
            },
            drag: DragState {
                active: false,
                node_idx: None,
                start_x: 0,
                start_y: 0,
                node_start_x: 0,
                node_start_y: 0,
            },
            pan: PanState {
                active: false,
                start_x: 0,
                start_y: 0,
                transform_start_x: 0,
                transform_start_y: 0,
            },
            hover,
            width,
            height,
            animation_running: true,
            flow_time: 0,
        }
    }

    /// Map a screen point to graph (world) space.
    pub fn screen_to_graph(&self, sx: i64, sy: i64) -> (w: (i64, i64))
        requires
            self.wf(),
            spec_abs(sx as int) <= SCREEN_LIMIT as int,
            spec_abs(sy as int) <= SCREEN_LIMIT as int,
        ensures
            w.0 == spec_s2w(sx as int, self.transform.k as int, self.transform.x as int),
            w.1 == spec_s2w(sy as int, self.transform.k as int, self.transform.y as int),
            spec_abs(w.0 as int) <= 110_000_000_000_000,
            spec_abs(w.1 as int) <= 110_000_000_000_000,
    {
        self.transform.to_world(sx, sy)
    }

    /// Hit-test a screen point: the top-most node whose world-space
    /// distance to the pointer is under [`HIT_RADIUS`], or nothing.
    pub fn node_at_position(&self, sx: i64, sy: i64) -> (r: Option<usize>)
        requires
            self.wf(),
            spec_abs(sx as int) <= SCREEN_LIMIT as int,
            spec_abs(sy as int) <= SCREEN_LIMIT as int,
        ensures
            ({
                let gx = spec_s2w(sx as int, self.transform.k as int, self.transform.x as int);
                let gy = spec_s2w(sy as int, self.transform.k as int, self.transform.y as int);
                (match r {
                    Some(v) => spec_hit_scan(self.graph.nodes@, gx, gy, self.graph.nodes@.len() as int)
                        == Some(v as int) && v < self.graph.nodes@.len(),
                    None => spec_hit_scan(self.graph.nodes@, gx, gy, self.graph.nodes@.len() as int)
                        is None,
                }) && r == spec_hit_opt(self.graph.nodes@, gx, gy)
            }),
    {
        let (gx, gy) = self.screen_to_graph(sx, sy);
        let n = self.graph.node_count();
        let mut found: Option<usize> = None;
        let mut j: usize = 0;
        while j < n
            invariant
                j <= n == self.graph.nodes@.len(),
                self.wf(),
                spec_abs(gx as int) <= 110_000_000_000_000,
                spec_abs(gy as int) <= 110_000_000_000_000,
                match found {
                    Some(v) => spec_hit_scan(self.graph.nodes@, gx as int, gy as int, j as int)
                        == Some(v as int) && v < n,
                    None => spec_hit_scan(self.graph.nodes@, gx as int, gy as int, j as int)
                        is None,
                },
            decreases n - j,
        {
            let node = self.graph.node(j);
            let dx = node.x - gx;
            let dy = node.y - gy;
            proof {
                assert(dx as i128 * (dx as i128) <= 0x100_0000_0000_0000_0000_0000_0000 && dy
                    as i128 * (dy as i128) <= 0x100_0000_0000_0000_0000_0000_0000 && dx as i128
                    * (dx as i128) >= 0 && dy as i128 * (dy as i128) >= 0) by (nonlinear_arith)
                    requires
                        spec_abs(dx as int) <= 120_000_000_000_000,
                        spec_abs(dy as int) <= 120_000_000_000_000,
                ;
            }
            let d2: i128 = (dx as i128) * (dx as i128) + (dy as i128) * (dy as i128);
            if d2 < HIT_RADIUS_SQ as i128 {
                found = Some(j);
            }
            j = j + 1;
        }
        found
    }

    /// Change the hover target directly.
    pub fn set_hover(&mut self, node: Option<usize>)
        requires
            old(self).wf(),
            match node {
                Some(h) => h < old(self).graph.nodes@.len(),
                None => true,
            },
        ensures
            final(self).wf(),
            set_hover_rel(
                old(self).hover,
                final(self).hover,
                node,
                old(self).graph.edges@,
                old(self).graph.nodes@.len() as nat,
            ),
            final(self).graph == old(self).graph,
            final(self).transform == old(self).transform,
            final(self).drag == old(self).drag,
            final(self).pan == old(self).pan,
            final(self).params == old(self).params,
            final(self).width == old(self).width,
            final(self).height == old(self).height,
            final(self).animation_running == old(self).animation_running,
            final(self).flow_time == old(self).flow_time,
    {
        let n = self.graph.nodes.len();
        self.hover.set_hover(node, &self.graph.edges, n);
    }

    /// Whether `idx` takes part in the active or fading highlight.
    pub fn is_highlighted(&self, idx: usize) -> (r: bool)
        requires
            self.wf(),
            idx < self.graph.nodes@.len(),
        ensures
            r == self.hover.spec_is_highlighted(idx as int),
    {
        self.hover.is_highlighted(idx)
    }

    /// Whether `idx` is the hovered node or the one still fading.
    pub fn is_hovered(&self, idx: usize) -> (r: bool)
        ensures
            r == (self.hover.node == Some(idx) || self.hover.prev_node == Some(idx)),
    {
        self.hover.is_hovered(idx)
    }

    /// Whether any highlight is active or fading.
    pub fn has_active_highlight(&self) -> (r: bool)
        ensures
            r == (self.hover.node is Some || self.hover.prev_node is Some),
    {
        self.hover.has_active_highlight()
    }

    /// The highlight intensity of node `idx`, milli units.
    pub fn node_intensity(&self, idx: usize) -> (r: i64)
        requires
            self.wf(),
            idx < self.graph.nodes@.len(),
        ensures
            r == self.hover.spec_node_intensity(idx as int),
    {
        self.hover.node_intensity(idx)
    }

    /// The highlight intensity of edge `(a, b)`, milli units.
    pub fn edge_intensity(&self, a: usize, b: usize) -> (r: i64)
        requires
            self.wf(),
            a < self.graph.nodes@.len(),
            b < self.graph.nodes@.len(),
        ensures
            r == self.hover.spec_edge_intensity(a as int, b as int),
    {
        self.hover.edge_intensity(a, b)
    }

    /// The global eased highlight intensity, milli units.
    pub fn max_intensity(&self) -> (r: i64)
        ensures
            r == self.hover.highlight_t,
    {
        self.hover.max_intensity()
    }

    /// Advance one frame: integrate the physics, run the flow clock, and
    /// ease the highlight.  Integration completes before the highlight
    /// advances, so rendering reads one consistent snapshot.
    pub fn tick(&mut self, dt: i64)
        requires
            old(self).wf(),
            1 <= dt <= DT_LIMIT,
        ensures
            final(self).wf(),
            final(self).graph.edges@ == old(self).graph.edges@,
            final(self).graph.nodes@.len() == old(self).graph.nodes@.len(),
            forall|i: int|
                0 <= i < old(self).graph.nodes@.len() ==> final(self).graph.nodes@[i]
                    == spec_tick_node(
                    old(self).graph.nodes@,
                    old(self).graph.edges@,
                    old(self).params,
                    dt as int,
                    i,
                ),
            forall|i: int|
                0 <= i < old(self).graph.nodes@.len() && old(self).graph.nodes@[i].is_anchor
                    ==> final(self).graph.nodes@[i] == old(self).graph.nodes@[i],
            final(self).flow_time == spec_clamp(old(self).flow_time + dt, 0, FLOW_LIMIT as int),
            advance_rel(
                old(self).hover,
                final(self).hover,
                old(self).graph.edges@,
                old(self).graph.nodes@.len() as nat,
                dt as int,
            ),
            final(self).transform == old(self).transform,
            final(self).drag == old(self).drag,
            final(self).pan == old(self).pan,
            final(self).params == old(self).params,
            final(self).width == old(self).width,
            final(self).height == old(self).height,
            final(self).animation_running == old(self).animation_running,
    {
        integrate(&mut self.graph, &self.params, dt);
        let bumped = self.flow_time + dt;
        self.flow_time = if bumped > FLOW_LIMIT {
            FLOW_LIMIT
        } else {
            bumped
        };
        let n = self.graph.nodes.len();
        self.hover.advance(&self.graph.edges, n, dt);
    }

    /// Record new canvas dimensions; the layout itself is not rescaled.
    pub fn resize(&mut self, width: i64, height: i64)
        requires
            old(self).wf(),
            0 <= width <= DIM_LIMIT,
            0 <= height <= DIM_LIMIT,
        ensures
            final(self).wf(),
            final(self).width == width,
            final(self).height == height,
            *final(self) == (ForceGraphState { width, height, ..*old(self) }),
    {
        self.width = width;
        self.height = height;
    }

    /// Pointer press: a hit starts a drag of the hit node, recording
    /// where the pointer and the node were; a miss starts a pan,
    /// recording the pointer and the translation.
    pub fn pointer_down(&mut self, sx: i64, sy: i64)
        requires
            old(self).wf(),
            spec_abs(sx as int) <= SCREEN_LIMIT as int,
            spec_abs(sy as int) <= SCREEN_LIMIT as int,
        ensures
            final(self).wf(),
            final(self).graph == old(self).graph,
            final(self).transform == old(self).transform,
            final(self).hover == old(self).hover,
            final(self).params == old(self).params,
            final(self).width == old(self).width,
            final(self).height == old(self).height,
            final(self).animation_running == old(self).animation_running,
            final(self).flow_time == old(self).flow_time,
            ({
                let gx = spec_s2w(sx as int, old(self).transform.k as int, old(self).transform.x as int);
                let gy = spec_s2w(sy as int, old(self).transform.k as int, old(self).transform.y as int);
                match spec_hit_opt(old(self).graph.nodes@, gx, gy) {
                    Some(i) => final(self).drag == (DragState {
                        active: true,
                        node_idx: Some(i),
                        start_x: sx,
                        start_y: sy,
                        node_start_x: old(self).graph.nodes@[i as int].x,
                        node_start_y: old(self).graph.nodes@[i as int].y,
                    }) && final(self).pan == old(self).pan,
                    None => final(self).pan == (PanState {
                        active: true,
                        start_x: sx,
                        start_y: sy,
                        transform_start_x: old(self).transform.x,
                        transform_start_y: old(self).transform.y,
                    }) && final(self).drag == old(self).drag,
                }
            }),
    {
        match self.node_at_position(sx, sy) {
            Some(idx) => {
                let nd = self.graph.node(idx);
                let nx = nd.x;
                let ny = nd.y;
                self.drag = DragState {
                    active: true,
                    node_idx: Some(idx),
                    start_x: sx,
                    start_y: sy,
                    node_start_x: nx,
                    node_start_y: ny,
                };
            },
            None => {
                self.pan = PanState {
                    active: true,
                    start_x: sx,
                    start_y: sy,
                    transform_start_x: self.transform.x,
                    transform_start_y: self.transform.y,
                };
            },
        }
    }

    /// Pointer motion.
    ///
    /// While dragging, the grabbed node follows the pointer 1:1 in
    /// screen space (the screen delta is divided by the zoom) and is
    /// anchored at once so the integrator does not fight the hand.
    /// While panning, the translation follows the raw screen delta.
    /// Otherwise the motion only retargets the hover.
    pub fn pointer_move(&mut self, sx: i64, sy: i64)
        requires
            old(self).wf(),
            spec_abs(sx as int) <= SCREEN_LIMIT as int,
            spec_abs(sy as int) <= SCREEN_LIMIT as int,
        ensures
            final(self).wf(),
            final(self).graph.edges@ == old(self).graph.edges@,
            final(self).drag == old(self).drag,
            final(self).pan == old(self).pan,
            final(self).params == old(self).params,
            final(self).width == old(self).width,
            final(self).height == old(self).height,
            final(self).animation_running == old(self).animation_running,
            final(self).flow_time == old(self).flow_time,
            old(self).drag.active ==> {
                &&& final(self).hover == old(self).hover
                &&& final(self).transform == old(self).transform
                &&& (match old(self).drag.node_idx {
                    Some(i) => final(self).graph.nodes@ == old(self).graph.nodes@.update(
                        i as int,
                        (SimNode {
                            x: spec_clamp(
                                old(self).drag.node_start_x + (sx - old(self).drag.start_x) * 1000
                                    / old(self).transform.k as int,
                                -(POS_LIMIT as int),
                                POS_LIMIT as int,
                            ) as i64,
                            y: spec_clamp(
                                old(self).drag.node_start_y + (sy - old(self).drag.start_y) * 1000
                                    / old(self).transform.k as int,
                                -(POS_LIMIT as int),
                                POS_LIMIT as int,
                            ) as i64,
                            is_anchor: true,
                            ..old(self).graph.nodes@[i as int]
                        }),
                    ),
                    None => true,
                })
            },
            !old(self).drag.active ==> {
                &&& final(self).graph.nodes@ == old(self).graph.nodes@
                &&& set_hover_rel(
                    old(self).hover,
                    final(self).hover,
                    spec_hit_opt(
                        old(self).graph.nodes@,
                        spec_s2w(sx as int, old(self).transform.k as int, old(self).transform.x as int),
                        spec_s2w(sy as int, old(self).transform.k as int, old(self).transform.y as int),
                    ),
                    old(self).graph.edges@,
                    old(self).graph.nodes@.len() as nat,
                )
                &&& (old(self).pan.active ==> final(self).transform == (ViewTransform {
                    x: spec_clamp(
                        old(self).pan.transform_start_x + (sx - old(self).pan.start_x),
                        -(TRANSLATE_LIMIT as int),
                        TRANSLATE_LIMIT as int,
                    ) as i64,
                    y: spec_clamp(
                        old(self).pan.transform_start_y + (sy - old(self).pan.start_y),
                        -(TRANSLATE_LIMIT as int),
                        TRANSLATE_LIMIT as int,
                    ) as i64,
                    k: old(self).transform.k,
                }))
                &&& (!old(self).pan.active ==> final(self).transform == old(self).transform)
            },
    {
        if !self.drag.active {
            let hovered = self.node_at_position(sx, sy);
            let n = self.graph.nodes.len();
            self.hover.set_hover(hovered, &self.graph.edges, n);
        }
        if self.drag.active {
            if let Some(idx) = self.drag.node_idx {
                proof {
                    crate::transform::lemma_mul_div_ratio_bound(
                        sx as int - self.drag.start_x as int,
                        1000,
                        self.transform.k as int,
                        2 * SCREEN_LIMIT as int,
                        10,
                    );
                    crate::transform::lemma_mul_div_ratio_bound(
                        sy as int - self.drag.start_y as int,
                        1000,
                        self.transform.k as int,
                        2 * SCREEN_LIMIT as int,
                        10,
                    );
                }
                let dxw = mul_div(sx - self.drag.start_x, 1000, self.transform.k);
                let dyw = mul_div(sy - self.drag.start_y, 1000, self.transform.k);
                let nx = clamp64(self.drag.node_start_x + dxw, -POS_LIMIT, POS_LIMIT);
                let ny = clamp64(self.drag.node_start_y + dyw, -POS_LIMIT, POS_LIMIT);
                let node = node_mut(&mut self.graph.nodes, idx);
                node.x = nx;
                node.y = ny;
                node.is_anchor = true;
            }
        } else if self.pan.active {
            self.transform.x = clamp64(
                self.pan.transform_start_x + (sx - self.pan.start_x),
                -TRANSLATE_LIMIT,
                TRANSLATE_LIMIT,
            );
            self.transform.y = clamp64(
                self.pan.transform_start_y + (sy - self.pan.start_y),
                -TRANSLATE_LIMIT,
                TRANSLATE_LIMIT,
            );
        }
    }

    /// Pointer release: a dragged node stays anchored where it was
    /// dropped, permanently; drag and pan both end.
    pub fn pointer_up(&mut self)
        requires
            old(self).wf(),
        ensures
            final(self).wf(),
            final(self).drag.active == false && final(self).drag.node_idx is None,
            final(self).drag.start_x == old(self).drag.start_x,
            final(self).drag.start_y == old(self).drag.start_y,
            final(self).drag.node_start_x == old(self).drag.node_start_x,
            final(self).drag.node_start_y == old(self).drag.node_start_y,
            final(self).pan == (PanState { active: false, ..old(self).pan }),
            final(self).hover == old(self).hover,
            final(self).transform == old(self).transform,
            final(self).graph.edges@ == old(self).graph.edges@,
            final(self).params == old(self).params,
            final(self).width == old(self).width,
            final(self).height == old(self).height,
            final(self).animation_running == old(self).animation_running,
            final(self).flow_time == old(self).flow_time,
            (match old(self).drag.node_idx {
                Some(i) => old(self).drag.active ==> final(self).graph.nodes@ == old(
                    self,
                ).graph.nodes@.update(
                    i as int,
                    (SimNode { is_anchor: true, ..old(self).graph.nodes@[i as int] }),
                ),
                None => final(self).graph.nodes@ == old(self).graph.nodes@,
            }),
            !old(self).drag.active ==> final(self).graph.nodes@ == old(self).graph.nodes@,
    {
        if self.drag.active {
            if let Some(idx) = self.drag.node_idx {
                let node = node_mut(&mut self.graph.nodes, idx);
                node.is_anchor = true;
            }
        }
        self.drag.active = false;
        self.drag.node_idx = None;
        self.pan.active = false;
    }

    /// The pointer left the surface: end any drag or pan and clear the
    /// hover.
    pub fn pointer_leave(&mut self)
        requires
            old(self).wf(),
        ensures
            final(self).wf(),
            final(self).drag.active == false && final(self).drag.node_idx is None,
            final(self).pan == (PanState { active: false, ..old(self).pan }),
            final(self).graph == old(self).graph,
            final(self).transform == old(self).transform,
            set_hover_rel(
                old(self).hover,
                final(self).hover,
                None,
                old(self).graph.edges@,
                old(self).graph.nodes@.len() as nat,
            ),
            final(self).params == old(self).params,
            final(self).width == old(self).width,
            final(self).height == old(self).height,
            final(self).animation_running == old(self).animation_running,
            final(self).flow_time == old(self).flow_time,
    {
        self.drag.active = false;
        self.drag.node_idx = None;
        self.pan.active = false;
        let n = self.graph.nodes.len();
        self.hover.set_hover(None, &self.graph.edges, n);
    }

    /// Wheel zoom at a screen point: one multiplicative zoom step, with
    /// the translation adjusted so the world point under the pointer
    /// stays fixed up to rounding.
    pub fn on_wheel(&mut self, sx: i64, sy: i64, delta_y: i64)
        requires
            old(self).wf(),
            spec_abs(sx as int) <= SCREEN_LIMIT as int,
            spec_abs(sy as int) <= SCREEN_LIMIT as int,
        ensures
            final(self).wf(),
            final(self).transform.k == spec_zoom_k(old(self).transform.k as int, delta_y > 0),
            final(self).transform.x == spec_zoom_t(
                old(self).transform.x as int,
                sx as int,
                old(self).transform.k as int,
                final(self).transform.k as int,
            ),
            final(self).transform.y == spec_zoom_t(
                old(self).transform.y as int,
                sy as int,
                old(self).transform.k as int,
                final(self).transform.k as int,
            ),
            final(self).graph == old(self).graph,
            final(self).hover == old(self).hover,
            final(self).drag == old(self).drag,
            final(self).pan == old(self).pan,
            final(self).params == old(self).params,
            final(self).width == old(self).width,
            final(self).height == old(self).height,
            final(self).animation_running == old(self).animation_running,
            final(self).flow_time == old(self).flow_time,
    {
        self.transform.zoom_at(sx, sy, delta_y);
    }
}

/// The hit-test scan picks the hit node when everything above it
/// misses.
proof fn lemma_scan_picks(nodes: Seq<SimNode>, gx: int, gy: int, i: int, j: int)
    requires
        0 <= i < j <= nodes.len(),
        spec_hit(nodes[i], gx, gy),
        forall|q: int| i < q < nodes.len() ==> !spec_hit(#[trigger] nodes[q], gx, gy),
    ensures
        spec_hit_scan(nodes, gx, gy, j) == Some(i),
    decreases j,
{
    if j > i + 1 {
        lemma_scan_picks(nodes, gx, gy, i, j - 1);
    }
}

/// Picking is zoom-invariant in screen space: project a node to the
/// screen at any in-range zoom, hit-test that point, and the same node
/// comes back, provided every other node sits at least
/// [`PICK_SEPARATION`] away on some axis.
pub proof fn lemma_hit_zoom_invariant(nodes: Seq<SimNode>, t: ViewTransform, i: int)
    requires
        t.wf(),
        0 <= i < nodes.len(),
        spec_abs(nodes[i].x as int) <= POS_LIMIT as int,
        spec_abs(nodes[i].y as int) <= POS_LIMIT as int,
        forall|j: int|
            #![trigger nodes[j]]
            0 <= j < nodes.len() && j != i ==> spec_abs(nodes[j].x - nodes[i].x)
                >= PICK_SEPARATION as int || spec_abs(nodes[j].y - nodes[i].y)
                >= PICK_SEPARATION as int,
    ensures
        ({
            let sx = spec_w2s(nodes[i].x as int, t.k as int, t.x as int);
            let sy = spec_w2s(nodes[i].y as int, t.k as int, t.y as int);
            let gx = spec_s2w(sx, t.k as int, t.x as int);
            let gy = spec_s2w(sy, t.k as int, t.y as int);
            spec_hit_opt(nodes, gx, gy) == Some(i as usize)
        }),
{
    let x = nodes[i].x as int;
    let y = nodes[i].y as int;
    let k = t.k as int;
    let sx = spec_w2s(x, k, t.x as int);
    let sy = spec_w2s(y, k, t.y as int);
    let gx = spec_s2w(sx, k, t.x as int);
    let gy = spec_s2w(sy, k, t.y as int);
    lemma_roundtrip_error(x, k, t.x as int);
    lemma_roundtrip_error(y, k, t.y as int);
    assert(spec_hit(nodes[i], gx, gy)) by (nonlinear_arith)
        requires
            0 <= x - gx <= 11,
            0 <= y - gy <= 11,
            nodes[i].x == x,
            nodes[i].y == y,
            HIT_RADIUS_SQ == 144_000_000,
    ;
    assert forall|q: int| i < q < nodes.len() implies !spec_hit(#[trigger] nodes[q], gx, gy) by {
        assert(!spec_hit(nodes[q], gx, gy)) by (nonlinear_arith)
            requires
                0 <= x - gx <= 11,
                0 <= y - gy <= 11,
                spec_abs(nodes[q].x - x) >= 12_011 || spec_abs(nodes[q].y - y) >= 12_011,
                HIT_RADIUS_SQ == 144_000_000,
        ;
    }
    lemma_scan_picks(nodes, gx, gy, i, nodes.len() as int);
}

/// Projecting a world coordinate to the screen and back loses at most
/// 11 milli units, always rounding down.
proof fn lemma_roundtrip_error(x: int, k: int, tx: int)
    requires
        100 <= k <= 10_000,
    ensures
        0 <= x - spec_s2w(spec_w2s(x, k, tx), k, tx) <= 11,
{
    lemma_rescale_error(x, k, 1000, 1000);
    vstd::arithmetic::div_mod::lemma_div_multiples_vanish(x, 1000);
    assert(1000 * x == 1000int * x);
    assert(spec_w2s(x, k, tx) - tx == x * k / 1000);
    assert(x * k == x * k);
    assert(spec_s2w(spec_w2s(x, k, tx), k, tx) == (x * k / 1000) * 1000 / k) by {
        assert((x * k / 1000) * 1000 == 1000 * (x * k / 1000)) by (nonlinear_arith);
    }
    assert(1000 * (x * k / 1000) / k == (x * k / 1000) * 1000 / k) by {
        assert((x * k / 1000) * 1000 == 1000 * (x * k / 1000)) by (nonlinear_arith);
    }
    assert(1000int / k + 1 <= 11) by {
        vstd::arithmetic::div_mod::lemma_div_is_ordered(1000int, 10 * k, k);
        assert(10 * k == k * 10) by (nonlinear_arith);
        vstd::arithmetic::div_mod::lemma_div_multiples_vanish(10, k);
    }
    assert(x * 1000 == 1000 * x) by (nonlinear_arith);
}

} // verus!
