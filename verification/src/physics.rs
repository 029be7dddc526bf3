//! The force integrator.
//!
//! One step applies, per node: inverse-distance charge repulsion from
//! every other node (scaled by both masses and clamped), spring
//! attraction along every incident edge, accumulation with saturation,
//! conversion to a velocity change through the node-speed scale and the
//! node's mass, exponential damping, and clamped position integration.
//! Anchored nodes never move but still push and pull others.  Coincident
//! nodes receive a deterministic separation nudge instead of an undefined
//! force direction, so a step is a pure function of the state: two runs
//! from equal states agree exactly.

use vstd::prelude::*;
use crate::graph::{GraphStore, SimNode, node_wf, node_mut, POS_LIMIT, VEL_LIMIT};
use crate::fixed::{
    spec_clamp,
    spec_isqrt,
    spec_abs,
    clamp64,
    mul_div,
    mul_div_clamp,
    isqrt,
    abs_u64,
};

verus! {

/// Largest force one interaction contributes per axis, milli units.
pub const FORCE_LIMIT: i64 = 100_000;

/// Saturation bound of the per-node force accumulator, milli units.
pub const ACC_LIMIT: i64 = 10_000_000;

/// Horizontal nudge for coincident nodes, milli units.
pub const SEP_FORCE_X: i64 = 5_000;

/// Vertical nudge for coincident nodes, milli units.
pub const SEP_FORCE_Y: i64 = 3_000;

/// Largest accepted timestep, milliseconds.
pub const DT_LIMIT: i64 = 10_000;

/// Integrator parameters, all fixed-point.
pub struct SimParams {
    /// Charge repulsion scale: pair force is
    /// `charge * mass_a * mass_b / distance`.
    pub charge: i64,
    /// Spring scale: edge force is `spring * (distance - rest) / 1000`.
    pub spring: i64,
    /// Spring rest length, milli units.
    pub rest_length: i64,
    /// Velocity gained per milli force unit per second, milli units.
    pub node_speed: i64,
    /// Per-step velocity retention, milli units (1000 keeps everything).
    pub damping: i64,
}

impl SimParams {
    /// Parameter ranges the integrator is verified for.
    pub open spec fn wf(&self) -> bool {
        &&& 0 <= self.charge <= 1_000_000_000
        &&& 0 <= self.spring <= 1_000_000
        &&& 0 <= self.rest_length <= POS_LIMIT
        &&& 0 <= self.node_speed <= 100_000
        &&& 0 <= self.damping <= 1000
    }

    /// The stock tuning.
    pub fn defaults() -> (p: SimParams)
        ensures
            p.wf(),
            p.charge == 150_000_000,
            p.spring == 50,
            p.rest_length == 0,
            p.node_speed == 3000,
            p.damping == 900,
    {
        SimParams {
            charge: 150_000_000,
            spring: 50,
            rest_length: 0,
            node_speed: 3000,
            damping: 900,
        }
    }
}

/// Add a force into a saturating accumulator.
pub open spec fn acc_add(acc: (int, int), f: (int, int)) -> (int, int) {
    (
        spec_clamp(acc.0 + f.0, -(ACC_LIMIT as int), ACC_LIMIT as int),
        spec_clamp(acc.1 + f.1, -(ACC_LIMIT as int), ACC_LIMIT as int),
    )
}

/// Repulsive force on node `a` (index `ia`) from node `b` (index `ib`):
/// charge over distance, along the line from `b` to `a`, clamped per
/// axis; coincident nodes get the fixed separation nudge, lower index
/// one way and higher index the other.
pub open spec fn spec_repulse(a: SimNode, b: SimNode, ia: int, ib: int, p: SimParams) -> (
    int,
    int,
) {
    let dx = b.x - a.x;
    let dy = b.y - a.y;
    let d2 = dx * dx + dy * dy;
    if d2 == 0 {
        if ia < ib {
            (-(SEP_FORCE_X as int), -(SEP_FORCE_Y as int))
        } else {
            (SEP_FORCE_X as int, SEP_FORCE_Y as int)
        }
    } else {
        let d = spec_isqrt(d2 as nat) as int;
        let mag = spec_clamp(
            p.charge * (a.mass * b.mass) / d,
            -(FORCE_LIMIT as int),
            FORCE_LIMIT as int,
        );
        (
            spec_clamp(mag * (-dx) / d, -(FORCE_LIMIT as int), FORCE_LIMIT as int),
            spec_clamp(mag * (-dy) / d, -(FORCE_LIMIT as int), FORCE_LIMIT as int),
        )
    }
}

/// Spring force from the edge `a -> b` on whichever endpoint is asked
/// for: proportional to the stretch past the rest length, along the
/// edge, clamped per axis; a degenerate edge pulls nothing.
pub open spec fn spec_spring(a: SimNode, b: SimNode, at_src: bool, p: SimParams) -> (int, int) {
    let dx = b.x - a.x;
    let dy = b.y - a.y;
    let d2 = dx * dx + dy * dy;
    if d2 == 0 {
        (0, 0)
    } else {
        let d = spec_isqrt(d2 as nat) as int;
        let mag = spec_clamp(
            p.spring * (d - p.rest_length) / 1000,
            -(FORCE_LIMIT as int),
            FORCE_LIMIT as int,
        );
        if at_src {
            (
                spec_clamp(mag * dx / d, -(FORCE_LIMIT as int), FORCE_LIMIT as int),
                spec_clamp(mag * dy / d, -(FORCE_LIMIT as int), FORCE_LIMIT as int),
            )
        } else {
            (
                spec_clamp(mag * (-dx) / d, -(FORCE_LIMIT as int), FORCE_LIMIT as int),
                spec_clamp(mag * (-dy) / d, -(FORCE_LIMIT as int), FORCE_LIMIT as int),
            )
        }
    }
}

/// Repulsion accumulated on node `i` from nodes `0..j`, in index order.
pub open spec fn spec_repulse_acc(nodes: Seq<SimNode>, i: int, j: int, p: SimParams) -> (int, int)
    decreases j,
{
    if j <= 0 {
        (0, 0)
    } else {
        let prev = spec_repulse_acc(nodes, i, j - 1, p);
        if j - 1 == i {
            prev
        } else {
            acc_add(prev, spec_repulse(nodes[i], nodes[j - 1], i, j - 1, p))
        }
    }
}

/// Total force on node `i`: all repulsion, then spring forces of edges
/// `0..e` in insertion order.
pub open spec fn spec_force_acc(
    nodes: Seq<SimNode>,
    edges: Seq<(usize, usize)>,
    i: int,
    e: int,
    p: SimParams,
) -> (int, int)
    decreases e,
{
    if e <= 0 {
        spec_repulse_acc(nodes, i, nodes.len() as int, p)
    } else {
        let prev = spec_force_acc(nodes, edges, i, e - 1, p);
        let s = edges[e - 1].0;
        let t = edges[e - 1].1;
        if s == i || t == i {
            acc_add(prev, spec_spring(nodes[s as int], nodes[t as int], s == i, p))
        } else {
            prev
        }
    }
}

/// Node `i` after one step of timestep `dt` milliseconds: anchored nodes
/// are untouched; others gain clamped velocity from the net force, are
/// damped, and move by `velocity * dt`, with position and velocity
/// saturating at the world bounds.
pub open spec fn spec_tick_node(
    nodes: Seq<SimNode>,
    edges: Seq<(usize, usize)>,
    p: SimParams,
    dt: int,
    i: int,
) -> SimNode {
    let n = nodes[i];
    if n.is_anchor {
        n
    } else {
        let f = spec_force_acc(nodes, edges, i, edges.len() as int, p);
        let dvx = spec_clamp(
            f.0 * (p.node_speed * dt) / (n.mass * 1000),
            -(VEL_LIMIT as int),
            VEL_LIMIT as int,
        );
        let dvy = spec_clamp(
            f.1 * (p.node_speed * dt) / (n.mass * 1000),
            -(VEL_LIMIT as int),
            VEL_LIMIT as int,
        );
        let vx = spec_clamp(
            (n.vx + dvx) * p.damping / 1000,
            -(VEL_LIMIT as int),
            VEL_LIMIT as int,
        );
        let vy = spec_clamp(
            (n.vy + dvy) * p.damping / 1000,
            -(VEL_LIMIT as int),
            VEL_LIMIT as int,
        );
        let x = spec_clamp(n.x + vx * dt / 1000, -(POS_LIMIT as int), POS_LIMIT as int);
        let y = spec_clamp(n.y + vy * dt / 1000, -(POS_LIMIT as int), POS_LIMIT as int);
        SimNode { x: x as i64, y: y as i64, vx: vx as i64, vy: vy as i64, ..n }
    }
}

/// Squaring ignores sign.
pub(crate) proof fn lemma_sq_abs(x: int, ux: int)
    by (nonlinear_arith)
    requires
        ux == spec_abs(x),
    ensures
        ux * ux == x * x,
        ux * ux >= 0,
{
}

/// The repulsive force between two stored nodes.
fn repulse_force(a: &SimNode, b: &SimNode, ia: usize, ib: usize, p: &SimParams) -> (r: (i64, i64))
    requires
        node_wf(*a),
        node_wf(*b),
        p.wf(),
    ensures
        (r.0 as int, r.1 as int) == spec_repulse(*a, *b, ia as int, ib as int, *p),
        spec_abs(r.0 as int) <= FORCE_LIMIT as int,
        spec_abs(r.1 as int) <= FORCE_LIMIT as int,
{
    let dx = b.x - a.x;
    let dy = b.y - a.y;
    let ux = abs_u64(dx);
    let uy = abs_u64(dy);
    proof {
        lemma_sq_abs(dx as int, ux as int);
        lemma_sq_abs(dy as int, uy as int);
        assert(ux * ux <= 4_000_000_000_000_000_000 && uy * uy <= 4_000_000_000_000_000_000)
            by (nonlinear_arith)
            requires
                0 <= ux <= 2_000_000_000,
                0 <= uy <= 2_000_000_000,
        ;
    }
    let d2: u64 = ux * ux + uy * uy;
    if d2 == 0 {
        if ia < ib {
            (-SEP_FORCE_X, -SEP_FORCE_Y)
        } else {
            (SEP_FORCE_X, SEP_FORCE_Y)
        }
    } else {
        let du = isqrt(d2);
        proof {
            lemma_isqrt_pos(du as int, d2 as int);
            assert(1 <= a.mass * b.mass <= 1_000_000) by (nonlinear_arith)
                requires
                    1 <= a.mass <= 1000,
                    1 <= b.mass <= 1000,
            ;
        }
        let d = du as i64;
        let mm = a.mass * b.mass;
        let mag = mul_div_clamp(p.charge, mm, d, FORCE_LIMIT);
        (mul_div_clamp(mag, -dx, d, FORCE_LIMIT), mul_div_clamp(mag, -dy, d, FORCE_LIMIT))
    }
}

/// A nonzero squared distance has a nonzero integer square root.
pub(crate) proof fn lemma_isqrt_pos(du: int, d2: int)
    by (nonlinear_arith)
    requires
        du * du <= d2,
        d2 < (du + 1) * (du + 1),
        d2 >= 1,
        du >= 0,
    ensures
        du >= 1,
{
}

/// The spring force of an edge on one of its endpoints.
fn spring_force(a: &SimNode, b: &SimNode, at_src: bool, p: &SimParams) -> (r: (i64, i64))
    requires
        node_wf(*a),
        node_wf(*b),
        p.wf(),
    ensures
        (r.0 as int, r.1 as int) == spec_spring(*a, *b, at_src, *p),
        spec_abs(r.0 as int) <= FORCE_LIMIT as int,
        spec_abs(r.1 as int) <= FORCE_LIMIT as int,
{
    let dx = b.x - a.x;
    let dy = b.y - a.y;
    let ux = abs_u64(dx);
    let uy = abs_u64(dy);
    proof {
        lemma_sq_abs(dx as int, ux as int);
        lemma_sq_abs(dy as int, uy as int);
        assert(ux * ux <= 4_000_000_000_000_000_000 && uy * uy <= 4_000_000_000_000_000_000)
            by (nonlinear_arith)
            requires
                0 <= ux <= 2_000_000_000,
                0 <= uy <= 2_000_000_000,
        ;
    }
    let d2: u64 = ux * ux + uy * uy;
    if d2 == 0 {
        (0, 0)
    } else {
        let du = isqrt(d2);
        proof {
            lemma_isqrt_pos(du as int, d2 as int);
        }
        let d = du as i64;
        let disp = d - p.rest_length;
        let mag = mul_div_clamp(p.spring, disp, 1000, FORCE_LIMIT);
        if at_src {
            (mul_div_clamp(mag, dx, d, FORCE_LIMIT), mul_div_clamp(mag, dy, d, FORCE_LIMIT))
        } else {
            (mul_div_clamp(mag, -dx, d, FORCE_LIMIT), mul_div_clamp(mag, -dy, d, FORCE_LIMIT))
        }
    }
}

/// Advance every node one step of `dt` milliseconds.
#[verifier::loop_isolation(false)]
pub fn integrate(store: &mut GraphStore, p: &SimParams, dt: i64)
    requires
        old(store).wf(),
        p.wf(),
        1 <= dt <= DT_LIMIT,
    ensures
        final(store).wf(),
        final(store).edges@ == old(store).edges@,
        final(store).nodes@.len() == old(store).nodes@.len(),
        forall|i: int|
            0 <= i < old(store).nodes@.len() ==> final(store).nodes@[i] == spec_tick_node(
                old(store).nodes@,
                old(store).edges@,
                *p,
                dt as int,
                i,
            ),
        forall|i: int|
            0 <= i < old(store).nodes@.len() && old(store).nodes@[i].is_anchor
                ==> final(store).nodes@[i] == old(store).nodes@[i],
{
    let n = store.nodes.len();
    let m = store.edges.len();
    let mut fxs: Vec<i64> = Vec::new();
    let mut fys: Vec<i64> = Vec::new();
    let mut i: usize = 0;
    while i < n
        invariant
            i <= n,
            fxs@.len() == i,
            fys@.len() == i,
            forall|q: int|
                0 <= q < i ==> (fxs@[q] as int, fys@[q] as int) == spec_force_acc(
                    store.nodes@,
                    store.edges@,
                    q,
                    m as int,
                    *p,
                ),
        decreases n - i,
    {
        let mut ax: i64 = 0;
        let mut ay: i64 = 0;
        let mut j: usize = 0;
        while j < n
            invariant
                j <= n,
                (ax as int, ay as int) == spec_repulse_acc(store.nodes@, i as int, j as int, *p),
                -ACC_LIMIT <= ax <= ACC_LIMIT,
                -ACC_LIMIT <= ay <= ACC_LIMIT,
            decreases n - j,
        {
            if j != i {
                let f = repulse_force(&store.nodes[i], &store.nodes[j], i, j, p);
                ax = clamp64(ax + f.0, -ACC_LIMIT, ACC_LIMIT);
                ay = clamp64(ay + f.1, -ACC_LIMIT, ACC_LIMIT);
            }
            j = j + 1;
        }
        let mut e: usize = 0;
        while e < m
            invariant
                e <= m,
                (ax as int, ay as int) == spec_force_acc(
                    store.nodes@,
                    store.edges@,
                    i as int,
                    e as int,
                    *p,
                ),
                -ACC_LIMIT <= ax <= ACC_LIMIT,
                -ACC_LIMIT <= ay <= ACC_LIMIT,
            decreases m - e,
        {
            let (s, t) = store.edges[e];
            if s == i || t == i {
                let f = spring_force(&store.nodes[s], &store.nodes[t], s == i, p);
                ax = clamp64(ax + f.0, -ACC_LIMIT, ACC_LIMIT);
                ay = clamp64(ay + f.1, -ACC_LIMIT, ACC_LIMIT);
            }
            e = e + 1;
        }
        fxs.push(ax);
        fys.push(ay);
        i = i + 1;
    }
    proof {
        assert(0 <= p.node_speed * dt <= 1_000_000_000) by (nonlinear_arith)
            requires
                0 <= p.node_speed <= 100_000,
                1 <= dt <= 10_000,
        ;
    }
    let speed_dt = p.node_speed * dt;
    let mut u: usize = 0;
    while u < n
        invariant
            u <= n,
            store.nodes@.len() == n,
            store.edges@ == old(store).edges@,
            forall|q: int|
                u <= q < n ==> store.nodes@[q] == old(store).nodes@[q],
            forall|q: int|
                0 <= q < u ==> store.nodes@[q] == spec_tick_node(
                    old(store).nodes@,
                    old(store).edges@,
                    *p,
                    dt as int,
                    q,
                ),
            forall|q: int| 0 <= q < n ==> node_wf(#[trigger] store.nodes@[q]),
        decreases n - u,
    {
        let fx = fxs[u];
        let fy = fys[u];
        let node = node_mut(&mut store.nodes, u);
        if !node.is_anchor {
            let mass_scale = node.mass * 1000;
            let dvx = mul_div_clamp(fx, speed_dt, mass_scale, VEL_LIMIT);
            let dvy = mul_div_clamp(fy, speed_dt, mass_scale, VEL_LIMIT);
            let vx = mul_div_clamp(node.vx + dvx, p.damping, 1000, VEL_LIMIT);
            let vy = mul_div_clamp(node.vy + dvy, p.damping, 1000, VEL_LIMIT);
            let mx = mul_div(vx, dt, 1000);
            let my = mul_div(vy, dt, 1000);
            node.vx = vx;
            node.vy = vy;
            node.x = clamp64(node.x + mx, -POS_LIMIT, POS_LIMIT);
            node.y = clamp64(node.y + my, -POS_LIMIT, POS_LIMIT);
        }
        u = u + 1;
    }
}

/// The node sequence after stepping once with each timestep of `dts` in
/// turn.
pub open spec fn spec_run(
    nodes: Seq<SimNode>,
    edges: Seq<(usize, usize)>,
    p: SimParams,
    dts: Seq<int>,
) -> Seq<SimNode>
    decreases dts.len(),
{
    if dts.len() == 0 {
        nodes
    } else {
        spec_run(
            Seq::new(nodes.len(), |i: int| spec_tick_node(nodes, edges, p, dts[0], i)),
            edges,
            p,
            dts.drop_first(),
        )
    }
}

/// The integrator is deterministic: two runs from equal states through
/// equal timestep sequences produce equal node sequences.
pub proof fn lemma_run_deterministic(
    n1: Seq<SimNode>,
    n2: Seq<SimNode>,
    edges: Seq<(usize, usize)>,
    p: SimParams,
    dts: Seq<int>,
)
    requires
        n1 == n2,
    ensures
        spec_run(n1, edges, p, dts) == spec_run(n2, edges, p, dts),
{
}

/// Anchoring is permanent immunity: an anchored node's state is
/// untouched by any number of integration steps.
pub proof fn lemma_anchored_node_fixed(
    nodes: Seq<SimNode>,
    edges: Seq<(usize, usize)>,
    p: SimParams,
    dts: Seq<int>,
    i: int,
)
    requires
        0 <= i < nodes.len(),
        nodes[i].is_anchor,
    ensures
        spec_run(nodes, edges, p, dts).len() == nodes.len(),
        spec_run(nodes, edges, p, dts)[i] == nodes[i],
    decreases dts.len(),
{
    if dts.len() > 0 {
        let step = Seq::new(nodes.len(), |q: int| spec_tick_node(nodes, edges, p, dts[0], q));
        assert(step[i] == nodes[i]);
        lemma_anchored_node_fixed(step, edges, p, dts.drop_first(), i);
    }
}

} // verus!
