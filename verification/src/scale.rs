//! Zoom-aware sizing.
//!
//! Stroke widths, dash lengths, arrowheads and font sizes are divided by
//! the zoom factor so they keep a constant screen size; node radii are
//! inflated when zoomed out so nodes never vanish; dashes and arrows
//! fade away at low zoom where they would only shimmer.

use vstd::prelude::*;
use crate::fixed::{spec_clamp, clamp64, mul_div};
use crate::transform::{K_MIN, K_MAX};

verus! {

/// Base sizes, in milli world units at unit zoom.
pub struct ScaleConfig {
    /// Node body radius.
    pub node_radius: i64,
    /// Smallest on-screen node radius, milli screen units.
    pub min_screen_radius: i64,
    /// Edge stroke width.
    pub edge_width: i64,
    /// Arrowhead length.
    pub arrow_size: i64,
    /// Largest arrowhead in world units after zoom scaling.
    pub arrow_cap: i64,
    /// Dash segment length.
    pub dash_len: i64,
    /// Dash gap length.
    pub dash_gap: i64,
    /// Label font size, milli screen units.
    pub label_size: i64,
    /// Hover ring distance from the node edge.
    pub ring_offset: i64,
    /// Hover ring stroke width.
    pub ring_width: i64,
    /// Below this zoom arrowheads are culled entirely.
    pub cull_arrow_k: i64,
    /// Zoom where dashes have fully faded to solid strokes.
    pub dash_fade_lo: i64,
    /// Zoom where dashes are fully visible.
    pub dash_fade_hi: i64,
}

impl ScaleConfig {
    /// The ranges the scaling arithmetic is verified for.
    pub open spec fn wf(&self) -> bool {
        &&& 0 < self.node_radius <= 1_000_000
        &&& 0 <= self.min_screen_radius <= 1_000_000
        &&& 0 <= self.edge_width <= 1_000_000
        &&& 0 <= self.arrow_size <= 1_000_000
        &&& 0 <= self.arrow_cap <= 10_000_000
        &&& 0 <= self.dash_len <= 1_000_000
        &&& 0 <= self.dash_gap <= 1_000_000
        &&& 0 <= self.label_size <= 1_000_000
        &&& 0 <= self.ring_offset <= 1_000_000
        &&& 0 <= self.ring_width <= 1_000_000
        &&& K_MIN <= self.cull_arrow_k <= K_MAX
        &&& K_MIN <= self.dash_fade_lo < self.dash_fade_hi <= K_MAX
    }

    /// The stock sizing.
    pub fn defaults() -> (c: ScaleConfig)
        ensures
            c.wf(),
            c.node_radius == crate::state::NODE_RADIUS,
    {
        ScaleConfig {
            node_radius: 5_000,
            min_screen_radius: 3_000,
            edge_width: 1_200,
            arrow_size: 6_000,
            arrow_cap: 60_000,
            dash_len: 6_000,
            dash_gap: 4_000,
            label_size: 12_000,
            ring_offset: 3_000,
            ring_width: 1_500,
            cull_arrow_k: 200,
            dash_fade_lo: 250,
            dash_fade_hi: 600,
        }
    }
}

/// A base size divided by the zoom factor: constant on screen.
pub open spec fn spec_per_k(base: int, k: int) -> int {
    base * 1000 / k
}

/// The node radius at zoom `k`: never smaller on screen than the
/// configured minimum.
pub open spec fn spec_node_radius(c: ScaleConfig, k: int) -> int {
    let floor_r = spec_per_k(c.min_screen_radius as int, k);
    if c.node_radius >= floor_r {
        c.node_radius as int
    } else {
        floor_r
    }
}

/// The arrowhead size at zoom `k`, capped in world units.
pub open spec fn spec_arrow_size(c: ScaleConfig, k: int) -> int {
    spec_clamp(spec_per_k(c.arrow_size as int, k), 0, c.arrow_cap as int)
}

/// How visible dashes are at zoom `k`: a ramp between the two fade
/// thresholds.
pub open spec fn spec_dash_alpha(c: ScaleConfig, k: int) -> int {
    spec_clamp(
        (k - c.dash_fade_lo) * 1000 / (c.dash_fade_hi - c.dash_fade_lo),
        0,
        1000,
    )
}

/// All zoom-derived sizes for one frame.
pub struct ScaledValues {
    /// The zoom factor the values were derived from, milli.
    pub k: i64,
    /// Node radius, milli world units.
    pub node_radius: i64,
    /// Edge stroke width.
    pub edge_line_width: i64,
    /// Arrowhead length.
    pub arrow_size: i64,
    /// Dash segment and gap lengths.
    pub dash_len: i64,
    pub dash_gap: i64,
    /// Dash visibility, milli.
    pub dash_alpha: i64,
    /// Arrow visibility, milli.
    pub arrow_alpha: i64,
    /// Whether arrowheads are skipped entirely.
    pub cull_arrows: bool,
    /// Hover ring offset and width.
    pub ring_offset: i64,
    pub ring_width: i64,
    /// Label font size, milli world units.
    pub label_size: i64,
}

impl ScaledValues {
    /// The value ranges the renderer relies on.
    pub open spec fn wf(&self) -> bool {
        &&& K_MIN <= self.k <= K_MAX
        &&& 0 < self.node_radius <= 10_000_000
        &&& 0 <= self.edge_line_width <= 10_000_000
        &&& 0 <= self.arrow_size <= 10_000_000
        &&& 0 <= self.dash_len <= 10_000_000
        &&& 0 <= self.dash_gap <= 10_000_000
        &&& 0 <= self.dash_alpha <= 1000
        &&& 0 <= self.arrow_alpha <= 1000
        &&& 0 <= self.ring_offset <= 10_000_000
        &&& 0 <= self.ring_width <= 10_000_000
        &&& 0 <= self.label_size <= 10_000_000
    }

    /// Derive every size from the configuration and the zoom factor.
    pub fn new(c: &ScaleConfig, k: i64) -> (sv: ScaledValues)
        requires
            c.wf(),
            K_MIN <= k <= K_MAX,
        ensures
            sv.wf(),
            sv.k == k,
            sv.node_radius == spec_node_radius(*c, k as int),
            sv.edge_line_width == spec_per_k(c.edge_width as int, k as int),
            sv.arrow_size == spec_arrow_size(*c, k as int),
            sv.dash_len == spec_per_k(c.dash_len as int, k as int),
            sv.dash_gap == spec_per_k(c.dash_gap as int, k as int),
            sv.dash_alpha == spec_dash_alpha(*c, k as int),
            sv.arrow_alpha == spec_dash_alpha(*c, k as int),
            sv.cull_arrows == (k < c.cull_arrow_k),
            sv.ring_offset == spec_per_k(c.ring_offset as int, k as int),
            sv.ring_width == spec_per_k(c.ring_width as int, k as int),
            sv.label_size == spec_per_k(c.label_size as int, k as int),
    {
        let floor_r = mul_div(c.min_screen_radius, 1000, k);
        proof {
            crate::transform::lemma_mul_div_ratio_bound(
                c.min_screen_radius as int,
                1000,
                k as int,
                1_000_000,
                10,
            );
            lemma_per_k_bounds(c.edge_width as int, k as int);
            lemma_per_k_bounds(c.arrow_size as int, k as int);
            lemma_per_k_bounds(c.dash_len as int, k as int);
            lemma_per_k_bounds(c.dash_gap as int, k as int);
            lemma_per_k_bounds(c.ring_offset as int, k as int);
            lemma_per_k_bounds(c.ring_width as int, k as int);
            lemma_per_k_bounds(c.label_size as int, k as int);
        }
        let node_radius = if c.node_radius >= floor_r {
            c.node_radius
        } else {
            floor_r
        };
        let ramp = c.dash_fade_hi - c.dash_fade_lo;
        let dash_alpha = clamp64(mul_div(k - c.dash_fade_lo, 1000, ramp), 0, 1000);
        ScaledValues {
            k,
            node_radius,
            edge_line_width: mul_div(c.edge_width, 1000, k),
            arrow_size: clamp64(mul_div(c.arrow_size, 1000, k), 0, c.arrow_cap),
            dash_len: mul_div(c.dash_len, 1000, k),
            dash_gap: mul_div(c.dash_gap, 1000, k),
            dash_alpha,
            arrow_alpha: dash_alpha,
            cull_arrows: k < c.cull_arrow_k,
            ring_offset: mul_div(c.ring_offset, 1000, k),
            ring_width: mul_div(c.ring_width, 1000, k),
            label_size: mul_div(c.label_size, 1000, k),
        }
    }

    /// The animated dash phase at `flow_time` milliseconds: the elapsed
    /// dash travel, wrapped to the dash cycle.
    pub fn dash_offset(&self, flow_time: i64, flow_speed: i64) -> (r: i64)
        requires
            self.wf(),
            0 <= flow_time <= crate::state::FLOW_LIMIT,
            0 <= flow_speed <= 100_000,
        ensures
            r == spec_dash_offset(*self, flow_time as int, flow_speed as int),
            0 <= r <= self.dash_len + self.dash_gap,
    {
        let cycle: u64 = (self.dash_len + self.dash_gap) as u64;
        if cycle == 0 {
            return 0;
        }
        proof {
            assert(flow_time as u64 * (flow_speed as u64) <= 100_000_000_000_000_000)
                by (nonlinear_arith)
                requires
                    0 <= flow_time as u64 <= 1_000_000_000_000,
                    0 <= flow_speed as u64 <= 100_000,
            ;
        }
        let travel: u64 = (flow_time as u64) * (flow_speed as u64) / 1000;
        (travel % cycle) as i64
    }
}

/// The dash phase: elapsed travel modulo the dash cycle, zero for
/// dashless strokes.
pub open spec fn spec_dash_offset(sv: ScaledValues, flow_time: int, flow_speed: int) -> int {
    let cycle = sv.dash_len + sv.dash_gap;
    if cycle == 0 {
        0
    } else {
        (flow_time * flow_speed / 1000) % cycle
    }
}

/// Zoom-divided sizes stay within ten times their base.
proof fn lemma_per_k_bounds(base: int, k: int)
    requires
        0 <= base <= 1_000_000,
        K_MIN <= k <= K_MAX,
    ensures
        0 <= spec_per_k(base, k) <= 10_000_000,
{
    crate::transform::lemma_mul_div_ratio_bound(base, 1000, k, 1_000_000, 10);
}

} // verus!
