//! The hover-highlight animator.
//!
//! Tracks the hovered node and its direct neighbors, plus a snapshot of
//! the previously hovered set that keeps rendering while the eased
//! intensity decays.  Activation waits out a short dwell delay and rises
//! slower than release falls; both easings move a fixed-point intensity
//! in `[0, 1000]` toward its target by a rate-proportional step of at
//! least one milli per tick, so release always drains to exactly zero in
//! a bounded number of ticks, at which point the snapshot is dropped.

use vstd::prelude::*;
use crate::fixed::spec_clamp;

verus! {

/// Intensities below this snap to zero and end the fade.
pub const HIGHLIGHT_EPS: i64 = 10;

/// Dwell before a fresh hover starts brightening, milliseconds.
pub const HOVER_DELAY_MS: i64 = 80;

/// Approach rate toward full intensity, milli units per second.
pub const RISE_RATE: i64 = 1800;

/// Approach rate toward zero after release, milli units per second.
pub const FALL_RATE: i64 = 1260;

/// Whether some edge joins `a` and `b`, in either direction.
pub open spec fn spec_connected(edges: Seq<(usize, usize)>, a: int, b: int) -> bool {
    exists|e: int|
        0 <= e < edges.len() && ((#[trigger] edges[e]).0 == a && edges[e].1 == b || edges[e].0
            == b && edges[e].1 == a)
}

/// The neighbor mask of a hover target: over `n` nodes, true exactly at
/// the direct neighbors of the hovered node; all false with no target.
pub open spec fn spec_mask(node: Option<usize>, edges: Seq<(usize, usize)>, n: nat) -> Seq<
    bool,
> {
    Seq::new(
        n,
        |i: int|
            match node {
                Some(h) => spec_connected(edges, h as int, i),
                None => false,
            },
    )
}

/// Hover target, neighbor masks, and the eased intensity.
pub struct HoverState {
    /// The node under the pointer, if any.
    pub node: Option<usize>,
    /// Neighbor mask of `node`, indexed by node.
    pub neighbors: Vec<bool>,
    /// Eased intensity in `[0, 1000]`.
    pub highlight_t: i64,
    /// The hover target that is still fading out, if any.
    pub prev_node: Option<usize>,
    /// Neighbor mask of `prev_node`.
    pub prev_neighbors: Vec<bool>,
    /// Dwell time accumulated toward [`HOVER_DELAY_MS`].
    pub delay_t: i64,
}

/// How [`HoverState::set_hover`] relates the state before (`pre`) and
/// after (`post`) retargeting to `node`: re-hovering the same target
/// changes nothing; leaving a node for nothing snapshots the outgoing
/// set for its fade-out; any other change drops the snapshot; the dwell
/// timer restarts only when hovering starts from nothing.
pub open spec fn set_hover_rel(
    pre: HoverState,
    post: HoverState,
    node: Option<usize>,
    edges: Seq<(usize, usize)>,
    n: nat,
) -> bool {
    &&& post.highlight_t == pre.highlight_t
    &&& (pre.node == node ==> post == pre)
    &&& (pre.node != node ==> {
        &&& post.node == node
        &&& post.neighbors@ == spec_mask(node, edges, n)
        &&& ((pre.node is Some && node is None) ==> post.prev_node == pre.node
            && post.prev_neighbors@ == pre.neighbors@)
        &&& (!(pre.node is Some && node is None) ==> post.prev_node is None
            && post.prev_neighbors@ == spec_mask(None, edges, n))
        &&& post.delay_t == if node is Some && pre.node is None {
            0int
        } else {
            pre.delay_t as int
        }
    })
}

/// How [`HoverState::advance`] relates the state before (`pre`) and
/// after (`post`) one `dt`-millisecond step: while hovering the dwell
/// timer fills and then the intensity rises; with nothing hovered the
/// intensity falls, snapping to zero below [`HIGHLIGHT_EPS`] and
/// dropping the previous-hover snapshot at that moment.
pub open spec fn advance_rel(
    pre: HoverState,
    post: HoverState,
    edges: Seq<(usize, usize)>,
    n: nat,
    dt: int,
) -> bool {
    &&& post.node == pre.node
    &&& post.neighbors@ == pre.neighbors@
    &&& (pre.node is Some ==> {
        &&& post.delay_t == spec_clamp(pre.delay_t + dt, 0, HOVER_DELAY_MS as int)
        &&& post.highlight_t == if post.delay_t == HOVER_DELAY_MS {
            spec_rise(pre.highlight_t as int, dt)
        } else {
            pre.highlight_t as int
        }
        &&& post.prev_node == pre.prev_node
        &&& post.prev_neighbors@ == pre.prev_neighbors@
    })
    &&& (pre.node is None ==> {
        &&& post.delay_t == pre.delay_t
        &&& (spec_fall(pre.highlight_t as int, dt) < HIGHLIGHT_EPS ==> {
            &&& post.highlight_t == 0
            &&& post.prev_node is None
            &&& post.prev_neighbors@ == spec_mask(None, edges, n)
        })
        &&& (spec_fall(pre.highlight_t as int, dt) >= HIGHLIGHT_EPS ==> {
            &&& post.highlight_t == spec_fall(pre.highlight_t as int, dt)
            &&& post.prev_node == pre.prev_node
            &&& post.prev_neighbors@ == pre.prev_neighbors@
        })
    })
}

/// One easing step toward full intensity: an exponential-approach
/// increment of at least one milli.
pub open spec fn spec_rise(t: int, dt: int) -> int {
    let raw = (1000 - t) * (RISE_RATE as int) * dt / 1_000_000;
    let delta = if raw < 1 {
        1
    } else {
        raw
    };
    if t + delta > 1000 {
        1000
    } else {
        t + delta
    }
}

/// One easing step toward zero: an exponential-decay decrement of at
/// least one milli.
pub open spec fn spec_fall(t: int, dt: int) -> int {
    let raw = t * (FALL_RATE as int) * dt / 1_000_000;
    let delta = if raw < 1 {
        1
    } else {
        raw
    };
    if t - delta < 0 {
        0
    } else {
        t - delta
    }
}

impl HoverState {
    /// Masks sized to the graph and consistent with their targets,
    /// intensity and dwell in range, targets in range.
    pub open spec fn wf(&self, edges: Seq<(usize, usize)>, n: nat) -> bool {
        &&& self.neighbors@.len() == n
        &&& self.prev_neighbors@.len() == n
        &&& 0 <= self.highlight_t <= 1000
        &&& 0 <= self.delay_t <= HOVER_DELAY_MS
        &&& (match self.node {
            Some(h) => h < n,
            None => true,
        })
        &&& (match self.prev_node {
            Some(h) => h < n,
            None => true,
        })
        &&& self.neighbors@ == spec_mask(self.node, edges, n)
        &&& self.prev_neighbors@ == spec_mask(self.prev_node, edges, n)
    }

    /// Nothing hovered, nothing fading.
    pub fn new(n: usize) -> (h: HoverState)
        ensures
            h.wf(Seq::empty(), n as nat),
            h.node is None,
            h.prev_node is None,
            h.highlight_t == 0,
            h.delay_t == 0,
            h.neighbors@ == Seq::new(n as nat, |i: int| false),
            h.prev_neighbors@ == Seq::new(n as nat, |i: int| false),
    {
        let h = HoverState {
            node: None,
            neighbors: false_mask(n),
            highlight_t: 0,
            prev_node: None,
            prev_neighbors: false_mask(n),
            delay_t: 0,
        };
        proof {
            assert(h.neighbors@ =~= spec_mask(h.node, Seq::empty(), n as nat));
            assert(h.prev_neighbors@ =~= spec_mask(h.prev_node, Seq::empty(), n as nat));
        }
        h
    }

    /// Whether `idx` takes part in the active or fading highlight: the
    /// hovered node, one of its neighbors, or their previous-snapshot
    /// equivalents.
    pub open spec fn spec_is_highlighted(&self, idx: int) -> bool {
        self.node == Some(idx as usize) || (0 <= idx < self.neighbors@.len()
            && self.neighbors@[idx]) || self.prev_node == Some(idx as usize) || (0 <= idx
            < self.prev_neighbors@.len() && self.prev_neighbors@[idx])
    }

    /// The highlight intensity of node `idx`: the global eased value if
    /// it takes part, else zero.
    pub open spec fn spec_node_intensity(&self, idx: int) -> int {
        if self.spec_is_highlighted(idx) {
            self.highlight_t as int
        } else {
            0
        }
    }

    /// The highlight intensity of edge `(a, b)`: the global eased value
    /// if both endpoints take part, else zero.
    pub open spec fn spec_edge_intensity(&self, a: int, b: int) -> int {
        if self.spec_is_highlighted(a) && self.spec_is_highlighted(b) {
            self.highlight_t as int
        } else {
            0
        }
    }

    /// Runtime check of [`Self::spec_is_highlighted`].
    pub fn is_highlighted(&self, idx: usize) -> (r: bool)
        requires
            idx < self.neighbors@.len(),
            idx < self.prev_neighbors@.len(),
        ensures
            r == self.spec_is_highlighted(idx as int),
    {
        opt_is(self.node, idx) || self.neighbors[idx] || opt_is(self.prev_node, idx)
            || self.prev_neighbors[idx]
    }

    /// Whether `idx` is the hovered node or the one still fading.
    pub fn is_hovered(&self, idx: usize) -> (r: bool)
        ensures
            r == (self.node == Some(idx) || self.prev_node == Some(idx)),
    {
        opt_is(self.node, idx) || opt_is(self.prev_node, idx)
    }

    /// Whether any highlight is active or fading.
    pub fn has_active_highlight(&self) -> (r: bool)
        ensures
            r == (self.node is Some || self.prev_node is Some),
    {
        self.node.is_some() || self.prev_node.is_some()
    }

    /// The node intensity as a fixed-point value.
    pub fn node_intensity(&self, idx: usize) -> (r: i64)
        requires
            idx < self.neighbors@.len(),
            idx < self.prev_neighbors@.len(),
        ensures
            r == self.spec_node_intensity(idx as int),
    {
        if self.is_highlighted(idx) {
            self.highlight_t
        } else {
            0
        }
    }

    /// The edge intensity as a fixed-point value.
    pub fn edge_intensity(&self, a: usize, b: usize) -> (r: i64)
        requires
            a < self.neighbors@.len(),
            a < self.prev_neighbors@.len(),
            b < self.neighbors@.len(),
            b < self.prev_neighbors@.len(),
        ensures
            r == self.spec_edge_intensity(a as int, b as int),
    {
        if self.is_highlighted(a) && self.is_highlighted(b) {
            self.highlight_t
        } else {
            0
        }
    }

    /// The global eased intensity.
    pub fn max_intensity(&self) -> (r: i64)
        ensures
            r == self.highlight_t,
    {
        self.highlight_t
    }

    /// Change the hover target.
    ///
    /// Re-hovering the same target does nothing.  Moving from a node to
    /// nothing snapshots the outgoing node and mask for the fade-out;
    /// any other change drops the snapshot.  The dwell timer restarts
    /// only when hovering starts from nothing, not when switching
    /// directly between nodes.
    pub fn set_hover(&mut self, node: Option<usize>, edges: &Vec<(usize, usize)>, n: usize)
        requires
            old(self).wf(edges@, n as nat),
            match node {
                Some(h) => h < n,
                None => true,
            },
            forall|e: int|
                0 <= e < edges@.len() ==> (#[trigger] edges@[e]).0 < n && edges@[e].1 < n,
        ensures
            final(self).wf(edges@, n as nat),
            set_hover_rel(*old(self), *final(self), node, edges@, n as nat),
    {
        if opt_eq(self.node, node) {
            return ;
        }
        let was_hovering = self.node.is_some();
        if was_hovering && node.is_none() {
            // Keep the outgoing highlight set for the fade-out.
            self.prev_node = self.node;
            self.prev_neighbors = neighbor_mask(self.node, edges, n);
        } else {
            self.prev_node = None;
            self.prev_neighbors = false_mask(n);
            proof {
                assert(Seq::new(n as nat, |i: int| false) =~= spec_mask(
                    None,
                    edges@,
                    n as nat,
                ));
            }
        }
        self.node = node;
        self.neighbors = neighbor_mask(node, edges, n);
        if node.is_some() && !was_hovering {
            self.delay_t = 0;
        }
    }

    /// Advance the eased intensity one step of `dt` milliseconds.
    ///
    /// While hovering, the dwell timer fills first, then the intensity
    /// rises.  With nothing hovered the intensity falls, and once it
    /// drops below [`HIGHLIGHT_EPS`] it snaps to zero and the
    /// previous-hover snapshot is dropped.
    pub fn advance(&mut self, edges: &Vec<(usize, usize)>, n: usize, dt: i64)
        requires
            old(self).wf(edges@, n as nat),
            1 <= dt <= 10_000,
        ensures
            final(self).wf(edges@, n as nat),
            advance_rel(*old(self), *final(self), edges@, n as nat, dt as int),
    {
        if self.node.is_some() {
            let bumped = self.delay_t + dt;
            self.delay_t = if bumped > HOVER_DELAY_MS {
                HOVER_DELAY_MS
            } else {
                bumped
            };
            if self.delay_t >= HOVER_DELAY_MS {
                self.highlight_t = rise_step(self.highlight_t, dt);
            }
        } else {
            let fallen = fall_step(self.highlight_t, dt);
            if fallen < HIGHLIGHT_EPS {
                self.highlight_t = 0;
                self.prev_node = None;
                self.prev_neighbors = false_mask(n);
                proof {
                    assert(Seq::new(n as nat, |i: int| false) =~= spec_mask(
                        None,
                        edges@,
                        n as nat,
                    ));
                }
            } else {
                self.highlight_t = fallen;
            }
        }
    }
}

/// Whether `o` holds exactly `v`.
fn opt_is(o: Option<usize>, v: usize) -> (r: bool)
    ensures
        r == (o == Some(v)),
{
    match o {
        Some(x) => x == v,
        None => false,
    }
}

/// Structural equality of two optional indices.
fn opt_eq(a: Option<usize>, b: Option<usize>) -> (r: bool)
    ensures
        r == (a == b),
{
    match (a, b) {
        (None, None) => true,
        (Some(x), Some(y)) => x == y,
        _ => false,
    }
}

/// A mask of `n` entries, all false.
fn false_mask(n: usize) -> (m: Vec<bool>)
    ensures
        m@ == Seq::new(n as nat, |i: int| false),
{
    let mut m: Vec<bool> = Vec::new();
    let mut i: usize = 0;
    while i < n
        invariant
            i <= n,
            m@.len() == i,
            forall|q: int| 0 <= q < i ==> m@[q] == false,
        decreases n - i,
    {
        m.push(false);
        i = i + 1;
    }
    proof {
        assert(m@ =~= Seq::new(n as nat, |i: int| false));
    }
    m
}

/// Appending an edge extends connectivity by exactly that edge.
proof fn lemma_connected_push(s: Seq<(usize, usize)>, x: (usize, usize), a: int, b: int)
    ensures
        spec_connected(s.push(x), a, b) == (spec_connected(s, a, b) || (x.0 == a && x.1 == b) || (
        x.0 == b && x.1 == a)),
{
    if spec_connected(s.push(x), a, b) {
        let e = choose|e: int|
            0 <= e < s.push(x).len() && ((#[trigger] s.push(x)[e]).0 == a && s.push(x)[e].1 == b
                || s.push(x)[e].0 == b && s.push(x)[e].1 == a);
        if e < s.len() {
            assert(s.push(x)[e] == s[e]);
            assert(spec_connected(s, a, b));
        } else {
            assert(s.push(x)[e] == x);
        }
    }
    if spec_connected(s, a, b) {
        let e = choose|e: int|
            0 <= e < s.len() && ((#[trigger] s[e]).0 == a && s[e].1 == b || s[e].0 == b && s[e].1
                == a);
        assert(s.push(x)[e] == s[e]);
        assert(spec_connected(s.push(x), a, b));
    }
    if (x.0 == a && x.1 == b) || (x.0 == b && x.1 == a) {
        assert(s.push(x)[s.len() as int] == x);
        assert(spec_connected(s.push(x), a, b));
    }
}

/// Build the neighbor mask of a hover target.
fn neighbor_mask(node: Option<usize>, edges: &Vec<(usize, usize)>, n: usize) -> (m: Vec<bool>)
    requires
        match node {
            Some(h) => h < n,
            None => true,
        },
        forall|e: int| 0 <= e < edges@.len() ==> (#[trigger] edges@[e]).0 < n && edges@[e].1 < n,
    ensures
        m@ == spec_mask(node, edges@, n as nat),
{
    let mut m = false_mask(n);
    let h = match node {
        Some(h) => h,
        None => {
            proof {
                assert(m@ =~= spec_mask(node, edges@, n as nat));
            }
            return m;
        },
    };
    let count = edges.len();
    let mut e: usize = 0;
    while e < count
        invariant
            e <= count == edges@.len(),
            m@.len() == n,
            node == Some(h),
            h < n,
            forall|q: int|
                0 <= q < edges@.len() ==> (#[trigger] edges@[q]).0 < n && edges@[q].1 < n,
            forall|i: int|
                0 <= i < n ==> m@[i] == spec_connected(edges@.subrange(0, e as int), h as int, i),
        decreases count - e,
    {
        let (s, t) = edges[e];
        let ghost prefix = edges@.subrange(0, e as int);
        proof {
            assert(edges@.subrange(0, e + 1 as int) =~= prefix.push(edges@[e as int]));
        }
        if s == h {
            m.set(t, true);
        } else if t == h {
            m.set(s, true);
        }
        proof {
            assert forall|i: int| 0 <= i < n implies m@[i] == spec_connected(
                edges@.subrange(0, e + 1 as int),
                h as int,
                i,
            ) by {
                lemma_connected_push(prefix, edges@[e as int], h as int, i);
            }
        }
        e = e + 1;
    }
    proof {
        assert(edges@.subrange(0, edges@.len() as int) =~= edges@);
        assert(m@ =~= spec_mask(node, edges@, n as nat));
    }
    m
}

/// One rising easing step.
fn rise_step(t: i64, dt: i64) -> (r: i64)
    requires
        0 <= t <= 1000,
        1 <= dt <= 10_000,
    ensures
        r == spec_rise(t as int, dt as int),
        0 <= r <= 1000,
        r > t || t == 1000,
{
    let gap: u64 = (1000 - t) as u64;
    proof {
        assert(gap * (RISE_RATE as u64) <= 1_800_000 && gap * (RISE_RATE as u64) * (dt as u64)
            <= 18_000_000_000) by (nonlinear_arith)
            requires
                0 <= gap <= 1000,
                1 <= dt <= 10_000,
        ;
    }
    let raw: u64 = gap * (RISE_RATE as u64) * (dt as u64) / 1_000_000;
    let delta: i64 = if raw < 1 {
        1
    } else {
        raw as i64
    };
    if t + delta > 1000 {
        1000
    } else {
        t + delta
    }
}

/// One falling easing step.
fn fall_step(t: i64, dt: i64) -> (r: i64)
    requires
        0 <= t <= 1000,
        1 <= dt <= 10_000,
    ensures
        r == spec_fall(t as int, dt as int),
        0 <= r <= 1000,
        t >= 1 ==> r <= t - 1,
        t == 0 ==> r == 0,
{
    let tu: u64 = t as u64;
    proof {
        assert(tu * (FALL_RATE as u64) <= 1_260_000 && tu * (FALL_RATE as u64) * (dt as u64)
            <= 12_600_000_000) by (nonlinear_arith)
            requires
                0 <= tu <= 1000,
                1 <= dt <= 10_000,
        ;
    }
    let raw: u64 = tu * (FALL_RATE as u64) * (dt as u64) / 1_000_000;
    let delta: i64 = if raw < 1 {
        1
    } else {
        raw as i64
    };
    if t - delta < 0 {
        0
    } else {
        t - delta
    }
}

/// The intensity after `steps` release ticks of `dt` milliseconds each,
/// with the below-epsilon snap applied each tick.
pub open spec fn spec_fall_iter(t: int, dt: int, steps: nat) -> int
    decreases steps,
{
    if steps == 0 {
        t
    } else {
        let t1 = spec_fall(t, dt);
        let t2 = if t1 < HIGHLIGHT_EPS {
            0int
        } else {
            t1
        };
        spec_fall_iter(t2, dt, (steps - 1) as nat)
    }
}

/// Highlight decay converges: after release, at most `t` ticks of any
/// positive timestep drain an intensity of `t` milli to exactly zero.
pub proof fn lemma_decay_converges(t: int, dt: int, steps: nat)
    requires
        0 <= t <= 1000,
        1 <= dt <= 10_000,
        steps >= t,
    ensures
        spec_fall_iter(t, dt, steps) == 0,
    decreases steps,
{
    if steps > 0 {
        let raw = t * (FALL_RATE as int) * dt / 1_000_000;
        assert(t * (FALL_RATE as int) * dt >= 0) by (nonlinear_arith)
            requires
                t >= 0,
                dt >= 1,
        ;
        vstd::arithmetic::div_mod::lemma_div_is_ordered(0, t * (FALL_RATE as int) * dt, 1_000_000);
        assert(raw >= 0);
        let t1 = spec_fall(t, dt);
        let t2 = if t1 < HIGHLIGHT_EPS {
            0int
        } else {
            t1
        };
        lemma_decay_converges(t2, dt, (steps - 1) as nat)
    }
}

/// Hover highlighting is symmetric across any edge: hovering either
/// endpoint marks the other as a neighbor, and while the eased intensity
/// is positive the edge itself reads a positive intensity.
pub proof fn lemma_highlight_symmetry(
    h: HoverState,
    edges: Seq<(usize, usize)>,
    n: nat,
    e: int,
)
    requires
        h.wf(edges, n),
        0 <= e < edges.len(),
        edges[e].0 < n,
        edges[e].1 < n,
        h.node == Some(edges[e].0) || h.node == Some(edges[e].1),
    ensures
        h.node == Some(edges[e].0) ==> h.neighbors@[edges[e].1 as int],
        h.node == Some(edges[e].1) ==> h.neighbors@[edges[e].0 as int],
        h.highlight_t > 0 ==> h.spec_edge_intensity(edges[e].0 as int, edges[e].1 as int) > 0,
{
    let a = edges[e].0 as int;
    let b = edges[e].1 as int;
    assert(spec_connected(edges, a, b));
    assert(spec_connected(edges, b, a));
    assert(h.spec_is_highlighted(a));
    assert(h.spec_is_highlighted(b));
}

} // verus!
