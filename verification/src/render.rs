//! The render pipeline: one frame's state turned into draw commands.
//!
//! The pipeline owns no mutable state.  Each frame it emits, in order:
//! the background, the world-transform push, an edge glow pass, the main
//! edge pass (strokes, dash flow, arrowheads), a node glow pass, the
//! non-highlighted nodes, the highlighted and fading nodes on top (with
//! hover rings and labels), the transform pop, and a vignette.  All
//! geometry inside the transform is in milli world units; the host shell
//! replays the commands on its drawing surface.

use vstd::prelude::*;
use crate::color::{
    Color,
    parse_color,
    spec_parse_color,
    spec_with_alpha,
    spec_lighten,
    spec_darken,
    spec_color_lerp,
};
use crate::fixed::{
    spec_abs,
    spec_clamp,
    spec_isqrt,
    spec_smooth,
    spec_sin_wave,
    smooth_step,
    sin_wave,
    isqrt,
    abs_u64,
    mul_div,
    frac_mul,
    frac_mul_up,
    lerp_milli,
};
use crate::graph::{SimNode, node_wf};
use crate::highlight::HoverState;
use crate::scale::{ScaleConfig, ScaledValues, spec_per_k, spec_dash_offset};
use crate::state::ForceGraphState;
use crate::theme::Theme;

verus! {

/// One drawing instruction.
///
/// Coordinates and sizes are milli units: screen units outside the
/// transform (background, vignette), world units inside it.
pub enum DrawCmd {
    /// Fill the whole canvas with one color.
    BackgroundFill { width: i64, height: i64, color: Color },
    /// Fill the canvas with a radial gradient from `inner` out to
    /// `outer`, centered on the canvas.
    BackgroundGradient { width: i64, height: i64, inner: Color, outer: Color },
    /// Enter world space: translate by `(x, y)`, then scale by `k`.
    PushTransform { x: i64, y: i64, k: i64 },
    /// Return to screen space.
    PopTransform,
    /// A stroked segment, dashed when `dash_len > 0`.
    Line {
        x1: i64,
        y1: i64,
        x2: i64,
        y2: i64,
        width: i64,
        color: Color,
        dash_len: i64,
        dash_gap: i64,
        dash_offset: i64,
    },
    /// A stroked quadratic curve through control point `(cx, cy)`.
    Curve {
        x1: i64,
        y1: i64,
        cx: i64,
        cy: i64,
        x2: i64,
        y2: i64,
        width: i64,
        color: Color,
        dash_len: i64,
        dash_gap: i64,
        dash_offset: i64,
    },
    /// A filled triangle (arrowheads).
    Triangle { x1: i64, y1: i64, x2: i64, y2: i64, x3: i64, y3: i64, color: Color },
    /// A node body: a disc, optionally shaded from `highlight` through
    /// `fill` to `shadow`.
    Disc {
        x: i64,
        y: i64,
        radius: i64,
        fill: Color,
        highlight: Color,
        shadow: Color,
        gradient: bool,
        alpha: i64,
    },
    /// A radial glow fading from `stop_center` through `stop_mid` to
    /// transparent.
    Glow {
        x: i64,
        y: i64,
        inner_radius: i64,
        outer_radius: i64,
        stop_center: Color,
        stop_mid: Color,
    },
    /// A stroked circle.
    Ring { x: i64, y: i64, radius: i64, width: i64, color: Color, alpha: i64 },
    /// Screen-space vignette overlay of the given strength.
    Vignette { width: i64, height: i64, strength: i64 },
    /// A text label.
    Label { text: String, x: i64, y: i64, size: i64, alpha: i64 },
}

// ---------------------------------------------------------------------------
// Shared geometry
// ---------------------------------------------------------------------------

/// A squared edge length never puts a component past the rounded
/// length.
proof fn lemma_component_le_dist(dx: int, dy: int, d: int)
    by (nonlinear_arith)
    requires
        d >= 0,
        dx * dx + dy * dy < (d + 1) * (d + 1),
    ensures
        spec_abs(dx) <= d,
        spec_abs(dy) <= d,
{
}

/// An offset projected on a component never exceeds the offset:
/// `|so * dx / d| <= so` for `|dx| <= d`.
proof fn lemma_scaled_component(so: int, dx: int, d: int)
    requires
        0 < d,
        0 <= so,
        spec_abs(dx) <= d,
    ensures
        -so <= so * dx / d <= so,
{
    assert(-(so * d) <= so * dx <= so * d) by (nonlinear_arith)
        requires
            0 <= so,
            -d <= dx <= d,
    ;
    vstd::arithmetic::div_mod::lemma_div_is_ordered(so * dx, so * d, d);
    vstd::arithmetic::div_mod::lemma_div_is_ordered(-(so * d), so * dx, d);
    assert(so * d == d * so && -(so * d) == d * (-so)) by (nonlinear_arith);
    vstd::arithmetic::div_mod::lemma_div_multiples_vanish(so, d);
    vstd::arithmetic::div_mod::lemma_div_multiples_vanish(-so, d);
}

/// The edge vector and its rounded length.
fn edge_metrics(a: &SimNode, b: &SimNode) -> (r: (i64, i64, i64))
    requires
        node_wf(*a),
        node_wf(*b),
    ensures
        r.0 == b.x - a.x,
        r.1 == b.y - a.y,
        r.2 == spec_isqrt((r.0 * r.0 + r.1 * r.1) as nat),
        (r.2 == 0) == (r.0 * r.0 + r.1 * r.1 == 0),
        0 <= r.2 <= 2_900_000_000,
        spec_abs(r.0 as int) <= r.2 as int || r.2 == 0,
        spec_abs(r.1 as int) <= r.2 as int || r.2 == 0,
{
    let dx = b.x - a.x;
    let dy = b.y - a.y;
    let ux = abs_u64(dx);
    let uy = abs_u64(dy);
    proof {
        crate::physics::lemma_sq_abs(dx as int, ux as int);
        crate::physics::lemma_sq_abs(dy as int, uy as int);
        assert(ux * ux <= 4_000_000_000_000_000_000 && uy * uy <= 4_000_000_000_000_000_000)
            by (nonlinear_arith)
            requires
                0 <= ux <= 2_000_000_000,
                0 <= uy <= 2_000_000_000,
        ;
    }
    let d2: u64 = ux * ux + uy * uy;
    let d = isqrt(d2);
    proof {
        if d2 > 0 {
            crate::physics::lemma_isqrt_pos(d as int, d2 as int);
        }
        lemma_component_le_dist(dx as int, dy as int, d as int);
        assert(d <= 2_900_000_000) by (nonlinear_arith)
            requires
                d as int * (d as int) <= d2 as int,
                d2 <= 8_000_000_000_000_000_000,
                d >= 0,
        ;
    }
    (dx, dy, d as i64)
}

/// The stroke for one edge: a straight segment shortened at both ends,
/// or a quadratic curve bowed sideways when curvature is on and the
/// edge is long relative to the node radius.
pub open spec fn spec_edge_stroke(
    a: SimNode,
    b: SimNode,
    d: int,
    start_off: int,
    end_off: int,
    curved: bool,
    tension: int,
    node_radius: int,
    width: int,
    color: Color,
    dash_len: int,
    dash_gap: int,
    dash_offset: int,
) -> DrawCmd {
    let dx = b.x - a.x;
    let dy = b.y - a.y;
    if curved && d > node_radius * 4 {
        let co = d * (tension * 3) / 10_000;
        let px = co * (-dy) / d;
        let py = co * dx / d;
        DrawCmd::Curve {
            x1: (a.x + start_off * dx / d) as i64,
            y1: (a.y + start_off * dy / d) as i64,
            cx: ((a.x + b.x) / 2 + px) as i64,
            cy: ((a.y + b.y) / 2 + py) as i64,
            x2: (b.x - start_off * dx / d) as i64,
            y2: (b.y - start_off * dy / d) as i64,
            width: width as i64,
            color,
            dash_len: dash_len as i64,
            dash_gap: dash_gap as i64,
            dash_offset: dash_offset as i64,
        }
    } else {
        DrawCmd::Line {
            x1: (a.x + start_off * dx / d) as i64,
            y1: (a.y + start_off * dy / d) as i64,
            x2: (b.x - end_off * dx / d) as i64,
            y2: (b.y - end_off * dy / d) as i64,
            width: width as i64,
            color,
            dash_len: dash_len as i64,
            dash_gap: dash_gap as i64,
            dash_offset: dash_offset as i64,
        }
    }
}

/// Build one edge stroke.
///
/// A curved stroke keeps the same inset at both ends (the curve's bow
/// clears the arrowhead anyway); a straight one is shortened by
/// `end_off` at the target so it never runs under the arrowhead.
#[verifier::rlimit(30)]
fn edge_stroke_cmd(
    a: &SimNode,
    b: &SimNode,
    dx: i64,
    dy: i64,
    d: i64,
    start_off: i64,
    end_off: i64,
    curved: bool,
    tension: i64,
    node_radius: i64,
    width: i64,
    color: Color,
    dash_len: i64,
    dash_gap: i64,
    dash_offset: i64,
) -> (c: DrawCmd)
    requires
        node_wf(*a),
        node_wf(*b),
        dx == b.x - a.x,
        dy == b.y - a.y,
        0 < d <= 2_900_000_000,
        spec_abs(dx as int) <= d as int,
        spec_abs(dy as int) <= d as int,
        0 <= start_off <= 100_000_000,
        0 <= end_off <= 100_000_000,
        0 <= tension <= 1000,
        0 < node_radius <= 10_000_000,
    ensures
        c == spec_edge_stroke(
            *a,
            *b,
            d as int,
            start_off as int,
            end_off as int,
            curved,
            tension as int,
            node_radius as int,
            width as int,
            color,
            dash_len as int,
            dash_gap as int,
            dash_offset as int,
        ),
{
    proof {
        lemma_scaled_component(start_off as int, dx as int, d as int);
        lemma_scaled_component(start_off as int, dy as int, d as int);
        lemma_scaled_component(end_off as int, dx as int, d as int);
        lemma_scaled_component(end_off as int, dy as int, d as int);
    }
    let sxo = mul_div(start_off, dx, d);
    let syo = mul_div(start_off, dy, d);
    if curved && d > node_radius * 4 {
        proof {
            crate::transform::lemma_mul_div_bound(
                d as int,
                tension as int * 3,
                10_000,
                2_900_000_000,
            );
            crate::transform::lemma_mul_div_ratio_bound(
                d as int,
                tension as int * 3,
                10_000,
                2_900_000_000,
                1,
            );
        }
        let co = mul_div(d, tension * 3, 10_000);
        proof {
            lemma_scaled_component(co as int, -(dx as int), d as int);
            lemma_scaled_component(co as int, dx as int, d as int);
            lemma_scaled_component(co as int, -(dy as int), d as int);
        }
        let px = mul_div(co, -dy, d);
        let py = mul_div(co, dx, d);
        let mx = mul_div(a.x + b.x, 1, 2);
        DrawCmd::Curve {
            x1: a.x + sxo,
            y1: a.y + syo,
            cx: mx + px,
            cy: mul_div(a.y + b.y, 1, 2) + py,
            x2: b.x - sxo,
            y2: b.y - syo,
            width,
            color,
            dash_len,
            dash_gap,
            dash_offset,
        }
    } else {
        DrawCmd::Line {
            x1: a.x + sxo,
            y1: a.y + syo,
            x2: b.x - mul_div(end_off, dx, d),
            y2: b.y - mul_div(end_off, dy, d),
            width,
            color,
            dash_len,
            dash_gap,
            dash_offset,
        }
    }
}

// ---------------------------------------------------------------------------
// Edge passes
// ---------------------------------------------------------------------------

/// The glow-pass commands of one edge: a wide soft stroke, brighter on
/// the highlighted edge and dimmed on the rest while anything is
/// highlighted; degenerate and invisible strokes are skipped.
pub open spec fn spec_edge_glow_cmds(
    nodes: Seq<SimNode>,
    hover: HoverState,
    sv: ScaledValues,
    th: Theme,
    s: int,
    t: int,
) -> Seq<DrawCmd> {
    let a = nodes[s];
    let b = nodes[t];
    let dx = b.x - a.x;
    let dy = b.y - a.y;
    if dx * dx + dy * dy == 0 {
        Seq::empty()
    } else {
        let edge_t = hover.spec_edge_intensity(s, t);
        let max_t = hover.highlight_t as int;
        let gi = th.edge.glow_intensity as int;
        let glow_alpha = if edge_t > 10 {
            gi * (600 + 400 * spec_smooth(edge_t) / 1000) / 1000
        } else if max_t > 10 {
            gi * (600 - 400 * spec_smooth(max_t) / 1000) / 1000
        } else {
            gi * 600 / 1000
        };
        if glow_alpha < 10 {
            Seq::empty()
        } else {
            let d = spec_isqrt((dx * dx + dy * dy) as nat) as int;
            let color = spec_with_alpha(
                th.edge.glow_color,
                glow_alpha * th.edge.glow_color.a / 1000,
            );
            seq![
                spec_edge_stroke(
                    a,
                    b,
                    d,
                    sv.node_radius as int,
                    sv.node_radius as int,
                    th.edge.curved,
                    th.edge.curve_tension as int,
                    sv.node_radius as int,
                    sv.edge_line_width * 4,
                    color,
                    0,
                    0,
                    0,
                ),
            ]
        }
    }
}

/// Emit the glow-pass commands of edge `(s, t)`.
fn edge_glow_push(
    out: &mut Vec<DrawCmd>,
    nodes: &Vec<SimNode>,
    hover: &HoverState,
    sv: &ScaledValues,
    th: &Theme,
    s: usize,
    t: usize,
)
    requires
        s < nodes@.len(),
        t < nodes@.len(),
        forall|q: int| 0 <= q < nodes@.len() ==> node_wf(#[trigger] nodes@[q]),
        hover.neighbors@.len() == nodes@.len(),
        hover.prev_neighbors@.len() == nodes@.len(),
        0 <= hover.highlight_t <= 1000,
        sv.wf(),
        th.wf(),
    ensures
        final(out)@ == old(out)@ + spec_edge_glow_cmds(
            nodes@,
            *hover,
            *sv,
            *th,
            s as int,
            t as int,
        ),
{
    let a = &nodes[s];
    let b = &nodes[t];
    let (dx, dy, d) = edge_metrics(a, b);
    if d == 0 {
        proof {
            assert(final(out)@ =~= old(out)@ + spec_edge_glow_cmds(
                nodes@,
                *hover,
                *sv,
                *th,
                s as int,
                t as int,
            ));
        }
        return ;
    }
    let edge_t = hover.edge_intensity(s, t);
    let max_t = hover.max_intensity();
    let gi = th.edge.glow_intensity;
    let glow_alpha = if edge_t > 10 {
        frac_mul(gi, 600 + frac_mul(400, smooth_step(edge_t)))
    } else if max_t > 10 {
        frac_mul(gi, 600 - frac_mul(400, smooth_step(max_t)))
    } else {
        frac_mul(gi, 600)
    };
    if glow_alpha < 10 {
        proof {
            assert(final(out)@ =~= old(out)@ + spec_edge_glow_cmds(
                nodes@,
                *hover,
                *sv,
                *th,
                s as int,
                t as int,
            ));
        }
        return ;
    }
    let color = th.edge.glow_color.with_alpha(frac_mul(glow_alpha, th.edge.glow_color.a));
    let cmd = edge_stroke_cmd(
        a,
        b,
        dx,
        dy,
        d,
        sv.node_radius,
        sv.node_radius,
        th.edge.curved,
        th.edge.curve_tension,
        sv.node_radius,
        sv.edge_line_width * 4,
        color,
        0,
        0,
        0,
    );
    out.push(cmd);
    proof {
        assert(final(out)@ =~= old(out)@ + spec_edge_glow_cmds(
            nodes@,
            *hover,
            *sv,
            *th,
            s as int,
            t as int,
        ));
    }
}

/// The main-pass commands of one edge: the stroke (dashed while zoomed
/// in, thicker and brighter when highlighted, dimmed while another
/// highlight is active) and the arrowhead at the target end.
pub open spec fn spec_edge_main_cmds(
    nodes: Seq<SimNode>,
    hover: HoverState,
    sv: ScaledValues,
    th: Theme,
    doff: int,
    s: int,
    t: int,
) -> Seq<DrawCmd> {
    let a = nodes[s];
    let b = nodes[t];
    let dx = b.x - a.x;
    let dy = b.y - a.y;
    if dx * dx + dy * dy == 0 {
        Seq::empty()
    } else {
        let edge_t = spec_smooth(hover.spec_edge_intensity(s, t));
        let max_t = spec_smooth(hover.highlight_t as int);
        let style = if edge_t > 10 {
            (
                700 + 300 * edge_t / 1000,
                900 + 100 * edge_t / 1000,
                sv.edge_line_width * (1000 + 400 * edge_t / 1000) / 1000,
            )
        } else if max_t > 10 {
            (
                700 - 500 * max_t / 1000,
                900 - 600 * max_t / 1000,
                sv.edge_line_width * (1000 - 300 * max_t / 1000) / 1000,
            )
        } else {
            (700int, 900int, sv.edge_line_width as int)
        };
        let width = style.2 * (1000 + 300 * (1000 - sv.dash_alpha) / 1000) / 1000;
        let arrow_alpha = style.1 * sv.arrow_alpha / 1000;
        let color = spec_with_alpha(th.edge.color, style.0 * th.edge.color.a / 1000);
        let egap = sv.dash_gap * sv.dash_alpha / 1000;
        let dash = if egap > 100 {
            (sv.dash_len as int, egap, doff)
        } else {
            (0int, 0int, 0int)
        };
        let d = spec_isqrt((dx * dx + dy * dy) as nat) as int;
        let stroke = spec_edge_stroke(
            a,
            b,
            d,
            sv.node_radius as int,
            sv.node_radius + sv.arrow_size,
            th.edge.curved,
            th.edge.curve_tension as int,
            sv.node_radius as int,
            width,
            color,
            dash.0,
            dash.1,
            dash.2,
        );
        if !sv.cull_arrows && arrow_alpha > 0 {
            let acolor = spec_with_alpha(th.edge.color, arrow_alpha * th.edge.color.a / 1000);
            let tipx = b.x - sv.node_radius * dx / d;
            let tipy = b.y - sv.node_radius * dy / d;
            let backx = tipx - sv.arrow_size * dx / d;
            let backy = tipy - sv.arrow_size * dy / d;
            let half = sv.arrow_size / 2;
            let px = half * (-dy) / d;
            let py = half * dx / d;
            seq![stroke]
                + seq![
                DrawCmd::Triangle {
                    x1: tipx as i64,
                    y1: tipy as i64,
                    x2: (backx + px) as i64,
                    y2: (backy + py) as i64,
                    x3: (backx - px) as i64,
                    y3: (backy - py) as i64,
                    color: acolor,
                },
            ]
        } else {
            seq![stroke]
        }
    }
}

/// Emit the main-pass commands of edge `(s, t)`.
#[verifier::rlimit(60)]
fn edge_main_push(
    out: &mut Vec<DrawCmd>,
    nodes: &Vec<SimNode>,
    hover: &HoverState,
    sv: &ScaledValues,
    th: &Theme,
    doff: i64,
    s: usize,
    t: usize,
)
    requires
        s < nodes@.len(),
        t < nodes@.len(),
        forall|q: int| 0 <= q < nodes@.len() ==> node_wf(#[trigger] nodes@[q]),
        hover.neighbors@.len() == nodes@.len(),
        hover.prev_neighbors@.len() == nodes@.len(),
        0 <= hover.highlight_t <= 1000,
        sv.wf(),
        th.wf(),
        0 <= doff <= 20_000_000,
    ensures
        final(out)@ == old(out)@ + spec_edge_main_cmds(
            nodes@,
            *hover,
            *sv,
            *th,
            doff as int,
            s as int,
            t as int,
        ),
{
    let a = &nodes[s];
    let b = &nodes[t];
    let (dx, dy, d) = edge_metrics(a, b);
    if d == 0 {
        proof {
            assert(final(out)@ =~= old(out)@ + spec_edge_main_cmds(
                nodes@,
                *hover,
                *sv,
                *th,
                doff as int,
                s as int,
                t as int,
            ));
        }
        return ;
    }
    let edge_t = smooth_step(hover.edge_intensity(s, t));
    let max_t = smooth_step(hover.max_intensity());
    let (edge_alpha, arrow_base, base_width): (i64, i64, i64) = if edge_t > 10 {
        (
            700 + frac_mul(300, edge_t),
            900 + frac_mul(100, edge_t),
            frac_mul_up(sv.edge_line_width, 1000 + frac_mul(400, edge_t)),
        )
    } else if max_t > 10 {
        (
            700 - frac_mul(500, max_t),
            900 - frac_mul(600, max_t),
            frac_mul_up(sv.edge_line_width, 1000 - frac_mul(300, max_t)),
        )
    } else {
        (700, 900, sv.edge_line_width)
    };
    let width = frac_mul_up(base_width, 1000 + frac_mul(300, 1000 - sv.dash_alpha));
    let arrow_alpha = frac_mul(arrow_base, sv.arrow_alpha);
    let color = th.edge.color.with_alpha(frac_mul(edge_alpha, th.edge.color.a));
    let egap = frac_mul(sv.dash_gap, sv.dash_alpha);
    let (dl, dg, dof): (i64, i64, i64) = if egap > 100 {
        (sv.dash_len, egap, doff)
    } else {
        (0, 0, 0)
    };
    let stroke = edge_stroke_cmd(
        a,
        b,
        dx,
        dy,
        d,
        sv.node_radius,
        sv.node_radius + sv.arrow_size,
        th.edge.curved,
        th.edge.curve_tension,
        sv.node_radius,
        width,
        color,
        dl,
        dg,
        dof,
    );
    out.push(stroke);
    if !sv.cull_arrows && arrow_alpha > 0 {
        proof {
            lemma_scaled_component(sv.node_radius as int, dx as int, d as int);
            lemma_scaled_component(sv.node_radius as int, dy as int, d as int);
            lemma_scaled_component(sv.arrow_size as int, dx as int, d as int);
            lemma_scaled_component(sv.arrow_size as int, dy as int, d as int);
            lemma_scaled_component(sv.arrow_size as int / 2, -(dy as int), d as int);
            lemma_scaled_component(sv.arrow_size as int / 2, dx as int, d as int);
        }
        let acolor = th.edge.color.with_alpha(frac_mul(arrow_alpha, th.edge.color.a));
        let tipx = b.x - mul_div(sv.node_radius, dx, d);
        let tipy = b.y - mul_div(sv.node_radius, dy, d);
        let backx = tipx - mul_div(sv.arrow_size, dx, d);
        let backy = tipy - mul_div(sv.arrow_size, dy, d);
        let half = sv.arrow_size / 2;
        let px = mul_div(half, -dy, d);
        let py = mul_div(half, dx, d);
        out.push(
            DrawCmd::Triangle {
                x1: tipx,
                y1: tipy,
                x2: backx + px,
                y2: backy + py,
                x3: backx - px,
                y3: backy - py,
                color: acolor,
            },
        );
    }
    proof {
        assert(final(out)@ =~= old(out)@ + spec_edge_main_cmds(
            nodes@,
            *hover,
            *sv,
            *th,
            doff as int,
            s as int,
            t as int,
        ));
    }
}

// ---------------------------------------------------------------------------
// Node passes
// ---------------------------------------------------------------------------

/// The drawn radius of a node: the zoom-aware base radius scaled by the
/// highlight multiplier, the node's own size, and the pulse.
pub open spec fn spec_node_draw_radius(sv: ScaledValues, size: int, radius_mult: int, pulse: int) -> int {
    let r1 = sv.node_radius * radius_mult / 1000;
    let r2 = r1 * size / 1000;
    r2 * (1000 + pulse) / 1000
}

/// Compute the drawn radius.
fn node_draw_radius(sv: &ScaledValues, size: i64, radius_mult: i64, pulse: i64) -> (r: i64)
    requires
        sv.wf(),
        1 <= size <= 10_000,
        1 <= radius_mult <= 3000,
        -1000 <= pulse <= 1000,
    ensures
        r == spec_node_draw_radius(*sv, size as int, radius_mult as int, pulse as int),
        0 <= r <= 600_000_000,
{
    proof {
        crate::transform::lemma_mul_div_ratio_bound(
            sv.node_radius as int,
            radius_mult as int,
            1000,
            10_000_000,
            3,
        );
    }
    let r1 = mul_div(sv.node_radius, radius_mult, 1000);
    proof {
        crate::transform::lemma_mul_div_ratio_bound(r1 as int, size as int, 1000, 30_000_000, 10);
    }
    let r2 = mul_div(r1, size, 1000);
    proof {
        crate::transform::lemma_mul_div_ratio_bound(
            r2 as int,
            1000 + pulse as int,
            1000,
            300_000_000,
            2,
        );
    }
    mul_div(r2, 1000 + pulse, 1000)
}

/// The glow-pass commands of one node: a radial bloom tinted with the
/// node's color, swelling on the highlighted set and fading on the rest
/// while anything is highlighted; invisible blooms are skipped.
pub open spec fn spec_node_glow_cmds(
    nodes: Seq<SimNode>,
    hover: HoverState,
    sv: ScaledValues,
    th: Theme,
    pulse: int,
    i: int,
) -> Seq<DrawCmd> {
    let nd = nodes[i];
    let node_t = spec_smooth(hover.spec_node_intensity(i));
    let max_t = spec_smooth(hover.highlight_t as int);
    let hovered = hover.node == Some(i as usize) || hover.prev_node == Some(i as usize);
    let glow_mult = if node_t > 1 {
        if hovered {
            1500 + 500 * node_t / 1000
        } else {
            1000 + 300 * node_t / 1000
        }
    } else if max_t > 10 {
        1000 - 700 * max_t / 1000
    } else {
        1000
    };
    let alpha = (th.node.glow_intensity * glow_mult / 1000) * 400 / 1000;
    if alpha < 10 {
        Seq::empty()
    } else {
        let r = spec_node_draw_radius(sv, nd.info.size as int, 1000, pulse);
        let glow_radius = (r * 3) * glow_mult / 1000;
        let node_color = spec_parse_color(nd.info.color@);
        let glow_color = spec_with_alpha(node_color, alpha * th.node.glow_saturation / 1000);
        let white_glow = (Color {
            r: 255,
            g: 255,
            b: 255,
            a: spec_clamp(alpha * 300 / 1000, 0, 1000) as i64,
        });
        seq![
            DrawCmd::Glow {
                x: nd.x,
                y: nd.y,
                inner_radius: (r / 2) as i64,
                outer_radius: glow_radius as i64,
                stop_center: spec_color_lerp(white_glow, glow_color, 500),
                stop_mid: spec_with_alpha(glow_color, alpha * 500 / 1000),
            },
        ]
    }
}

/// Emit the glow-pass commands of node `i`.
fn node_glow_push(
    out: &mut Vec<DrawCmd>,
    nodes: &Vec<SimNode>,
    hover: &HoverState,
    sv: &ScaledValues,
    th: &Theme,
    pulse: i64,
    i: usize,
)
    requires
        i < nodes@.len(),
        forall|q: int| 0 <= q < nodes@.len() ==> node_wf(#[trigger] nodes@[q]),
        hover.neighbors@.len() == nodes@.len(),
        hover.prev_neighbors@.len() == nodes@.len(),
        0 <= hover.highlight_t <= 1000,
        sv.wf(),
        th.wf(),
        -1000 <= pulse <= 1000,
    ensures
        final(out)@ == old(out)@ + spec_node_glow_cmds(
            nodes@,
            *hover,
            *sv,
            *th,
            pulse as int,
            i as int,
        ),
{
    let nd = &nodes[i];
    let node_t = smooth_step(hover.node_intensity(i));
    let max_t = smooth_step(hover.max_intensity());
    let hovered = hover.is_hovered(i);
    let glow_mult: i64 = if node_t > 1 {
        if hovered {
            1500 + frac_mul(500, node_t)
        } else {
            1000 + frac_mul(300, node_t)
        }
    } else if max_t > 10 {
        1000 - frac_mul(700, max_t)
    } else {
        1000
    };
    let alpha = frac_mul(frac_mul_up(th.node.glow_intensity, glow_mult), 400);
    if alpha < 10 {
        proof {
            assert(final(out)@ =~= old(out)@ + spec_node_glow_cmds(
                nodes@,
                *hover,
                *sv,
                *th,
                pulse as int,
                i as int,
            ));
        }
        return ;
    }
    let r = node_draw_radius(sv, nd.info.size, 1000, pulse);
    let glow_radius = frac_mul_up(3 * r, glow_mult);
    let node_color = parse_color(nd.info.color.as_str());
    let glow_color = node_color.with_alpha(frac_mul(alpha, th.node.glow_saturation));
    let white_glow = Color::rgba(255, 255, 255, frac_mul(alpha, 300));
    out.push(
        DrawCmd::Glow {
            x: nd.x,
            y: nd.y,
            inner_radius: mul_div(r, 1, 2),
            outer_radius: glow_radius,
            stop_center: white_glow.lerp(glow_color, 500),
            stop_mid: glow_color.with_alpha(frac_mul(alpha, 500)),
        },
    );
    proof {
        assert(final(out)@ =~= old(out)@ + spec_node_glow_cmds(
            nodes@,
            *hover,
            *sv,
            *th,
            pulse as int,
            i as int,
        ));
    }
}

/// The body commands of one node: the disc (gradient-shaded toward a
/// lightened highlight and a darkened shadow when enabled), the border
/// ring, and the label for nodes still bright enough to read.
pub open spec fn spec_node_body_cmds(
    nd: SimNode,
    sv: ScaledValues,
    th: Theme,
    alpha: int,
    radius_mult: int,
    pulse: int,
) -> Seq<DrawCmd> {
    let r = spec_node_draw_radius(sv, nd.info.size as int, radius_mult, pulse);
    let fill = spec_parse_color(nd.info.color@);
    let disc = DrawCmd::Disc {
        x: nd.x,
        y: nd.y,
        radius: r as i64,
        fill,
        highlight: spec_lighten(fill, 400),
        shadow: spec_darken(fill, 200),
        gradient: th.node.use_gradient,
        alpha: alpha as i64,
    };
    let with_border = if th.node.border_width > 0 {
        seq![disc]
            + seq![
            DrawCmd::Ring {
                x: nd.x,
                y: nd.y,
                radius: r as i64,
                width: spec_per_k(th.node.border_width as int, sv.k as int) as i64,
                color: th.node.border_color,
                alpha: alpha as i64,
            },
        ]
    } else {
        seq![disc]
    };
    match nd.info.label {
        Some(text) => {
            if alpha > 500 {
                with_border
                    + seq![
                    DrawCmd::Label {
                        text,
                        x: (nd.x + r + 4000) as i64,
                        y: (nd.y + 3000) as i64,
                        size: sv.label_size,
                        alpha: (alpha * 680 / 1000) as i64,
                    },
                ]
            } else {
                with_border
            }
        },
        None => with_border,
    }
}

/// Emit the body commands of one node.
fn node_body_push(
    out: &mut Vec<DrawCmd>,
    nd: &SimNode,
    sv: &ScaledValues,
    th: &Theme,
    alpha: i64,
    radius_mult: i64,
    pulse: i64,
)
    requires
        node_wf(*nd),
        sv.wf(),
        th.wf(),
        0 <= alpha <= 1000,
        1 <= radius_mult <= 3000,
        -1000 <= pulse <= 1000,
    ensures
        final(out)@ == old(out)@ + spec_node_body_cmds(
            *nd,
            *sv,
            *th,
            alpha as int,
            radius_mult as int,
            pulse as int,
        ),
{
    let r = node_draw_radius(sv, nd.info.size, radius_mult, pulse);
    let fill = parse_color(nd.info.color.as_str());
    out.push(
        DrawCmd::Disc {
            x: nd.x,
            y: nd.y,
            radius: r,
            fill,
            highlight: fill.lighten(400),
            shadow: fill.darken(200),
            gradient: th.node.use_gradient,
            alpha,
        },
    );
    if th.node.border_width > 0 {
        proof {
            crate::transform::lemma_mul_div_ratio_bound(
                th.node.border_width as int,
                1000,
                sv.k as int,
                100_000,
                10,
            );
        }
        out.push(
            DrawCmd::Ring {
                x: nd.x,
                y: nd.y,
                radius: r,
                width: mul_div(th.node.border_width, 1000, sv.k),
                color: th.node.border_color,
                alpha,
            },
        );
    }
    match &nd.info.label {
        Some(text) => {
            if alpha > 500 {
                out.push(
                    DrawCmd::Label {
                        text: text.clone(),
                        x: nd.x + r + 4000,
                        y: nd.y + 3000,
                        size: sv.label_size,
                        alpha: frac_mul(alpha, 680),
                    },
                );
            }
        },
        None => {},
    }
    proof {
        assert(final(out)@ =~= old(out)@ + spec_node_body_cmds(
            *nd,
            *sv,
            *th,
            alpha as int,
            radius_mult as int,
            pulse as int,
        ));
    }
}

/// The plain-pass commands of one node: nothing for nodes with any
/// highlight (they draw in the top pass); the rest dim and shrink in
/// proportion to the global highlight strength.
pub open spec fn spec_plain_node_cmds(
    nodes: Seq<SimNode>,
    hover: HoverState,
    sv: ScaledValues,
    th: Theme,
    pulse: int,
    i: int,
) -> Seq<DrawCmd> {
    let node_t = hover.spec_node_intensity(i);
    if node_t > 1 {
        Seq::empty()
    } else {
        let max_t = spec_smooth(hover.highlight_t as int);
        let style = if max_t > 10 {
            (1000 - 700 * max_t / 1000, 1000 - 150 * max_t / 1000)
        } else {
            (1000int, 1000int)
        };
        spec_node_body_cmds(nodes[i], sv, th, style.0, style.1, pulse)
    }
}

/// Emit the plain-pass commands of node `i`.
fn plain_node_push(
    out: &mut Vec<DrawCmd>,
    nodes: &Vec<SimNode>,
    hover: &HoverState,
    sv: &ScaledValues,
    th: &Theme,
    pulse: i64,
    i: usize,
)
    requires
        i < nodes@.len(),
        forall|q: int| 0 <= q < nodes@.len() ==> node_wf(#[trigger] nodes@[q]),
        hover.neighbors@.len() == nodes@.len(),
        hover.prev_neighbors@.len() == nodes@.len(),
        0 <= hover.highlight_t <= 1000,
        sv.wf(),
        th.wf(),
        -1000 <= pulse <= 1000,
    ensures
        final(out)@ == old(out)@ + spec_plain_node_cmds(
            nodes@,
            *hover,
            *sv,
            *th,
            pulse as int,
            i as int,
        ),
{
    let node_t = hover.node_intensity(i);
    if node_t > 1 {
        proof {
            assert(final(out)@ =~= old(out)@ + spec_plain_node_cmds(
                nodes@,
                *hover,
                *sv,
                *th,
                pulse as int,
                i as int,
            ));
        }
        return ;
    }
    let max_t = smooth_step(hover.max_intensity());
    let (alpha, radius_mult): (i64, i64) = if max_t > 10 {
        (1000 - frac_mul(700, max_t), 1000 - frac_mul(150, max_t))
    } else {
        (1000, 1000)
    };
    node_body_push(out, &nodes[i], sv, th, alpha, radius_mult, pulse);
    proof {
        assert(final(out)@ =~= old(out)@ + spec_plain_node_cmds(
            nodes@,
            *hover,
            *sv,
            *th,
            pulse as int,
            i as int,
        ));
    }
}

/// The top-pass commands of one highlighted or fading node: the body
/// blended from the dimmed toward the fully highlighted appearance, the
/// hover rings on the hovered node, and the label once more so it stays
/// crisp above the rings.
pub open spec fn spec_highlight_node_cmds(
    nodes: Seq<SimNode>,
    hover: HoverState,
    sv: ScaledValues,
    th: Theme,
    pulse: int,
    i: int,
) -> Seq<DrawCmd> {
    let nd = nodes[i];
    let node_t = hover.spec_node_intensity(i);
    if node_t <= 1 {
        Seq::empty()
    } else {
        let eased = spec_smooth(node_t);
        let max_t = spec_smooth(hover.highlight_t as int);
        let hovered = hover.node == Some(i as usize) || hover.prev_node == Some(i as usize);
        let dim = if max_t > 10 {
            (1000 - 700 * max_t / 1000, 1000 - 150 * max_t / 1000)
        } else {
            (1000int, 1000int)
        };
        let hr = if hovered {
            1000 + 400 * eased / 1000
        } else {
            1000 + 250 * eased / 1000
        };
        let alpha = dim.0 + (1000 - dim.0) * eased / 1000;
        let radius_mult = dim.1 + (hr - dim.1) * eased / 1000;
        let body = spec_node_body_cmds(nd, sv, th, alpha, radius_mult, pulse);
        let r = spec_node_draw_radius(sv, nd.info.size as int, radius_mult, pulse);
        let white = (Color { r: 255, g: 255, b: 255, a: 1000int as i64 });
        let ringed = if hovered && eased > 10 {
            body
                + seq![
                DrawCmd::Ring {
                    x: nd.x,
                    y: nd.y,
                    radius: (r + sv.ring_offset) as i64,
                    width: sv.ring_width,
                    color: white,
                    alpha: (800 * eased / 1000) as i64,
                },
                DrawCmd::Ring {
                    x: nd.x,
                    y: nd.y,
                    radius: (r + sv.ring_offset * 25 / 10) as i64,
                    width: (sv.ring_width / 2) as i64,
                    color: white,
                    alpha: (300 * eased / 1000) as i64,
                },
            ]
        } else {
            body
        };
        match nd.info.label {
            Some(text) => ringed
                + seq![
                DrawCmd::Label {
                    text,
                    x: (nd.x + r + 4000) as i64,
                    y: (nd.y + 3000) as i64,
                    size: sv.label_size,
                    alpha: (950 * alpha / 1000) as i64,
                },
            ],
            None => ringed,
        }
    }
}

/// Emit the top-pass commands of node `i`.
#[verifier::rlimit(30)]
fn highlight_node_push(
    out: &mut Vec<DrawCmd>,
    nodes: &Vec<SimNode>,
    hover: &HoverState,
    sv: &ScaledValues,
    th: &Theme,
    pulse: i64,
    i: usize,
)
    requires
        i < nodes@.len(),
        forall|q: int| 0 <= q < nodes@.len() ==> node_wf(#[trigger] nodes@[q]),
        hover.neighbors@.len() == nodes@.len(),
        hover.prev_neighbors@.len() == nodes@.len(),
        0 <= hover.highlight_t <= 1000,
        sv.wf(),
        th.wf(),
        -1000 <= pulse <= 1000,
    ensures
        final(out)@ == old(out)@ + spec_highlight_node_cmds(
            nodes@,
            *hover,
            *sv,
            *th,
            pulse as int,
            i as int,
        ),
{
    let nd = &nodes[i];
    let node_t = hover.node_intensity(i);
    if node_t <= 1 {
        proof {
            assert(final(out)@ =~= old(out)@ + spec_highlight_node_cmds(
                nodes@,
                *hover,
                *sv,
                *th,
                pulse as int,
                i as int,
            ));
        }
        return ;
    }
    let eased = smooth_step(node_t);
    let max_t = smooth_step(hover.max_intensity());
    let hovered = hover.is_hovered(i);
    let (dim_alpha, dim_radius): (i64, i64) = if max_t > 10 {
        (1000 - frac_mul(700, max_t), 1000 - frac_mul(150, max_t))
    } else {
        (1000, 1000)
    };
    let hr: i64 = if hovered {
        1000 + frac_mul(400, eased)
    } else {
        1000 + frac_mul(250, eased)
    };
    let alpha = lerp_milli(dim_alpha, 1000, eased);
    let radius_mult = lerp_milli(dim_radius, hr, eased);
    node_body_push(out, nd, sv, th, alpha, radius_mult, pulse);
    let r = node_draw_radius(sv, nd.info.size, radius_mult, pulse);
    if hovered && eased > 10 {
        let white = Color { r: 255, g: 255, b: 255, a: 1000 };
        out.push(
            DrawCmd::Ring {
                x: nd.x,
                y: nd.y,
                radius: r + sv.ring_offset,
                width: sv.ring_width,
                color: white,
                alpha: frac_mul(800, eased),
            },
        );
        out.push(
            DrawCmd::Ring {
                x: nd.x,
                y: nd.y,
                radius: r + mul_div(sv.ring_offset, 25, 10),
                width: mul_div(sv.ring_width, 1, 2),
                color: white,
                alpha: frac_mul(300, eased),
            },
        );
    }
    match &nd.info.label {
        Some(text) => {
            out.push(
                DrawCmd::Label {
                    text: text.clone(),
                    x: nd.x + r + 4000,
                    y: nd.y + 3000,
                    size: sv.label_size,
                    alpha: frac_mul(950, alpha),
                },
            );
        },
        None => {},
    }
    proof {
        assert(final(out)@ =~= old(out)@ + spec_highlight_node_cmds(
            nodes@,
            *hover,
            *sv,
            *th,
            pulse as int,
            i as int,
        ));
    }
}

// ---------------------------------------------------------------------------
// The frame
// ---------------------------------------------------------------------------

/// The pulse value at `flow_time`: the pulse wave scaled by its
/// configured amplitude, zero when pulsing is off.
pub open spec fn spec_pulse(th: Theme, flow_time: int) -> int {
    if th.node.pulse_intensity > 0 {
        spec_sin_wave((flow_time * th.node.pulse_speed / 1000) % 1000) * th.node.pulse_intensity
            / 1000
    } else {
        0
    }
}

/// The glow-pass commands of the first `e` edges.
pub open spec fn spec_edge_glow_pass(
    nodes: Seq<SimNode>,
    edges: Seq<(usize, usize)>,
    hover: HoverState,
    sv: ScaledValues,
    th: Theme,
    e: int,
) -> Seq<DrawCmd>
    decreases e,
{
    if e <= 0 {
        Seq::empty()
    } else {
        spec_edge_glow_pass(nodes, edges, hover, sv, th, e - 1) + spec_edge_glow_cmds(
            nodes,
            hover,
            sv,
            th,
            edges[e - 1].0 as int,
            edges[e - 1].1 as int,
        )
    }
}

/// The main-pass commands of the first `e` edges.
pub open spec fn spec_edge_main_pass(
    nodes: Seq<SimNode>,
    edges: Seq<(usize, usize)>,
    hover: HoverState,
    sv: ScaledValues,
    th: Theme,
    doff: int,
    e: int,
) -> Seq<DrawCmd>
    decreases e,
{
    if e <= 0 {
        Seq::empty()
    } else {
        spec_edge_main_pass(nodes, edges, hover, sv, th, doff, e - 1) + spec_edge_main_cmds(
            nodes,
            hover,
            sv,
            th,
            doff,
            edges[e - 1].0 as int,
            edges[e - 1].1 as int,
        )
    }
}

/// The glow-pass commands of the first `n` nodes.
pub open spec fn spec_node_glow_pass(
    nodes: Seq<SimNode>,
    hover: HoverState,
    sv: ScaledValues,
    th: Theme,
    pulse: int,
    n: int,
) -> Seq<DrawCmd>
    decreases n,
{
    if n <= 0 {
        Seq::empty()
    } else {
        spec_node_glow_pass(nodes, hover, sv, th, pulse, n - 1) + spec_node_glow_cmds(
            nodes,
            hover,
            sv,
            th,
            pulse,
            n - 1,
        )
    }
}

/// The plain-pass commands of the first `n` nodes.
pub open spec fn spec_plain_pass(
    nodes: Seq<SimNode>,
    hover: HoverState,
    sv: ScaledValues,
    th: Theme,
    pulse: int,
    n: int,
) -> Seq<DrawCmd>
    decreases n,
{
    if n <= 0 {
        Seq::empty()
    } else {
        spec_plain_pass(nodes, hover, sv, th, pulse, n - 1) + spec_plain_node_cmds(
            nodes,
            hover,
            sv,
            th,
            pulse,
            n - 1,
        )
    }
}

/// The top-pass commands of the first `n` nodes.
pub open spec fn spec_highlight_pass(
    nodes: Seq<SimNode>,
    hover: HoverState,
    sv: ScaledValues,
    th: Theme,
    pulse: int,
    n: int,
) -> Seq<DrawCmd>
    decreases n,
{
    if n <= 0 {
        Seq::empty()
    } else {
        spec_highlight_pass(nodes, hover, sv, th, pulse, n - 1) + spec_highlight_node_cmds(
            nodes,
            hover,
            sv,
            th,
            pulse,
            n - 1,
        )
    }
}

/// Emit the glow pass over all edges.
fn run_edge_glow_pass(
    out: &mut Vec<DrawCmd>,
    nodes: &Vec<SimNode>,
    edges: &Vec<(usize, usize)>,
    hover: &HoverState,
    sv: &ScaledValues,
    th: &Theme,
)
    requires
        forall|q: int| 0 <= q < nodes@.len() ==> node_wf(#[trigger] nodes@[q]),
        forall|e: int|
            0 <= e < edges@.len() ==> (#[trigger] edges@[e]).0 < nodes@.len() && edges@[e].1
                < nodes@.len(),
        hover.neighbors@.len() == nodes@.len(),
        hover.prev_neighbors@.len() == nodes@.len(),
        0 <= hover.highlight_t <= 1000,
        sv.wf(),
        th.wf(),
    ensures
        final(out)@ == old(out)@ + spec_edge_glow_pass(
            nodes@,
            edges@,
            *hover,
            *sv,
            *th,
            edges@.len() as int,
        ),
{
    let m = edges.len();
    let mut e: usize = 0;
    while e < m
        invariant
            e <= m == edges@.len(),
            forall|q: int| 0 <= q < nodes@.len() ==> node_wf(#[trigger] nodes@[q]),
            forall|q: int|
                0 <= q < edges@.len() ==> (#[trigger] edges@[q]).0 < nodes@.len() && edges@[q].1
                    < nodes@.len(),
            hover.neighbors@.len() == nodes@.len(),
            hover.prev_neighbors@.len() == nodes@.len(),
            0 <= hover.highlight_t <= 1000,
            sv.wf(),
            th.wf(),
            out@ == old(out)@ + spec_edge_glow_pass(nodes@, edges@, *hover, *sv, *th, e as int),
        decreases m - e,
    {
        let (s, t) = edges[e];
        edge_glow_push(out, nodes, hover, sv, th, s, t);
        e = e + 1;
    }
}

/// Emit the main pass over all edges.
fn run_edge_main_pass(
    out: &mut Vec<DrawCmd>,
    nodes: &Vec<SimNode>,
    edges: &Vec<(usize, usize)>,
    hover: &HoverState,
    sv: &ScaledValues,
    th: &Theme,
    doff: i64,
)
    requires
        forall|q: int| 0 <= q < nodes@.len() ==> node_wf(#[trigger] nodes@[q]),
        forall|e: int|
            0 <= e < edges@.len() ==> (#[trigger] edges@[e]).0 < nodes@.len() && edges@[e].1
                < nodes@.len(),
        hover.neighbors@.len() == nodes@.len(),
        hover.prev_neighbors@.len() == nodes@.len(),
        0 <= hover.highlight_t <= 1000,
        sv.wf(),
        th.wf(),
        0 <= doff <= 20_000_000,
    ensures
        final(out)@ == old(out)@ + spec_edge_main_pass(
            nodes@,
            edges@,
            *hover,
            *sv,
            *th,
            doff as int,
            edges@.len() as int,
        ),
{
    let m = edges.len();
    let mut e: usize = 0;
    while e < m
        invariant
            e <= m == edges@.len(),
            forall|q: int| 0 <= q < nodes@.len() ==> node_wf(#[trigger] nodes@[q]),
            forall|q: int|
                0 <= q < edges@.len() ==> (#[trigger] edges@[q]).0 < nodes@.len() && edges@[q].1
                    < nodes@.len(),
            hover.neighbors@.len() == nodes@.len(),
            hover.prev_neighbors@.len() == nodes@.len(),
            0 <= hover.highlight_t <= 1000,
            sv.wf(),
            th.wf(),
            0 <= doff <= 20_000_000,
            out@ == old(out)@ + spec_edge_main_pass(
                nodes@,
                edges@,
                *hover,
                *sv,
                *th,
                doff as int,
                e as int,
            ),
        decreases m - e,
    {
        let (s, t) = edges[e];
        edge_main_push(out, nodes, hover, sv, th, doff, s, t);
        e = e + 1;
    }
}

/// Emit the glow pass over all nodes.
fn run_node_glow_pass(
    out: &mut Vec<DrawCmd>,
    nodes: &Vec<SimNode>,
    hover: &HoverState,
    sv: &ScaledValues,
    th: &Theme,
    pulse: i64,
)
    requires
        forall|q: int| 0 <= q < nodes@.len() ==> node_wf(#[trigger] nodes@[q]),
        hover.neighbors@.len() == nodes@.len(),
        hover.prev_neighbors@.len() == nodes@.len(),
        0 <= hover.highlight_t <= 1000,
        sv.wf(),
        th.wf(),
        -1000 <= pulse <= 1000,
    ensures
        final(out)@ == old(out)@ + spec_node_glow_pass(
            nodes@,
            *hover,
            *sv,
            *th,
            pulse as int,
            nodes@.len() as int,
        ),
{
    let n = nodes.len();
    let mut i: usize = 0;
    while i < n
        invariant
            i <= n == nodes@.len(),
            forall|q: int| 0 <= q < nodes@.len() ==> node_wf(#[trigger] nodes@[q]),
            hover.neighbors@.len() == nodes@.len(),
            hover.prev_neighbors@.len() == nodes@.len(),
            0 <= hover.highlight_t <= 1000,
            sv.wf(),
            th.wf(),
            -1000 <= pulse <= 1000,
            out@ == old(out)@ + spec_node_glow_pass(nodes@, *hover, *sv, *th, pulse as int, i as int),
        decreases n - i,
    {
        node_glow_push(out, nodes, hover, sv, th, pulse, i);
        i = i + 1;
    }
}

/// Emit the plain pass over all nodes.
fn run_plain_pass(
    out: &mut Vec<DrawCmd>,
    nodes: &Vec<SimNode>,
    hover: &HoverState,
    sv: &ScaledValues,
    th: &Theme,
    pulse: i64,
)
    requires
        forall|q: int| 0 <= q < nodes@.len() ==> node_wf(#[trigger] nodes@[q]),
        hover.neighbors@.len() == nodes@.len(),
        hover.prev_neighbors@.len() == nodes@.len(),
        0 <= hover.highlight_t <= 1000,
        sv.wf(),
        th.wf(),
        -1000 <= pulse <= 1000,
    ensures
        final(out)@ == old(out)@ + spec_plain_pass(
            nodes@,
            *hover,
            *sv,
            *th,
            pulse as int,
            nodes@.len() as int,
        ),
{
    let n = nodes.len();
    let mut i: usize = 0;
    while i < n
        invariant
            i <= n == nodes@.len(),
            forall|q: int| 0 <= q < nodes@.len() ==> node_wf(#[trigger] nodes@[q]),
            hover.neighbors@.len() == nodes@.len(),
            hover.prev_neighbors@.len() == nodes@.len(),
            0 <= hover.highlight_t <= 1000,
            sv.wf(),
            th.wf(),
            -1000 <= pulse <= 1000,
            out@ == old(out)@ + spec_plain_pass(nodes@, *hover, *sv, *th, pulse as int, i as int),
        decreases n - i,
    {
        plain_node_push(out, nodes, hover, sv, th, pulse, i);
        i = i + 1;
    }
}

/// Emit the top pass over all nodes.
fn run_highlight_pass(
    out: &mut Vec<DrawCmd>,
    nodes: &Vec<SimNode>,
    hover: &HoverState,
    sv: &ScaledValues,
    th: &Theme,
    pulse: i64,
)
    requires
        forall|q: int| 0 <= q < nodes@.len() ==> node_wf(#[trigger] nodes@[q]),
        hover.neighbors@.len() == nodes@.len(),
        hover.prev_neighbors@.len() == nodes@.len(),
        0 <= hover.highlight_t <= 1000,
        sv.wf(),
        th.wf(),
        -1000 <= pulse <= 1000,
    ensures
        final(out)@ == old(out)@ + spec_highlight_pass(
            nodes@,
            *hover,
            *sv,
            *th,
            pulse as int,
            nodes@.len() as int,
        ),
{
    let n = nodes.len();
    let mut i: usize = 0;
    while i < n
        invariant
            i <= n == nodes@.len(),
            forall|q: int| 0 <= q < nodes@.len() ==> node_wf(#[trigger] nodes@[q]),
            hover.neighbors@.len() == nodes@.len(),
            hover.prev_neighbors@.len() == nodes@.len(),
            0 <= hover.highlight_t <= 1000,
            sv.wf(),
            th.wf(),
            -1000 <= pulse <= 1000,
            out@ == old(out)@ + spec_highlight_pass(
                nodes@,
                *hover,
                *sv,
                *th,
                pulse as int,
                i as int,
            ),
        decreases n - i,
    {
        highlight_node_push(out, nodes, hover, sv, th, pulse, i);
        i = i + 1;
    }
}

/// The background command.
pub open spec fn spec_background_cmd(state: ForceGraphState, th: Theme) -> DrawCmd {
    if th.background.use_gradient {
        DrawCmd::BackgroundGradient {
            width: state.width,
            height: state.height,
            inner: th.background.color_secondary,
            outer: th.background.color,
        }
    } else {
        DrawCmd::BackgroundFill { width: state.width, height: state.height, color: th.background.color }
    }
}

/// The whole frame: background, world transform, edge glow pass (when
/// edge glow is on), main edge pass, node glow pass (when node glow is
/// on), the non-highlighted nodes, the highlighted nodes on top, the
/// transform pop, and the vignette (when configured).
pub open spec fn spec_render(state: ForceGraphState, th: Theme, sv: ScaledValues, doff: int) -> Seq<DrawCmd> {
    let nodes = state.graph.nodes@;
    let edges = state.graph.edges@;
    let n = nodes.len() as int;
    let m = edges.len() as int;
    let pulse = spec_pulse(th, state.flow_time as int);
    seq![spec_background_cmd(state, th)]
        + seq![
        DrawCmd::PushTransform { x: state.transform.x, y: state.transform.y, k: state.transform.k },
    ] + (if th.edge.glow_intensity > 0 {
        spec_edge_glow_pass(nodes, edges, state.hover, sv, th, m)
    } else {
        Seq::empty()
    }) + spec_edge_main_pass(nodes, edges, state.hover, sv, th, doff, m) + (if th.node.glow_intensity
        > 0 {
        spec_node_glow_pass(nodes, state.hover, sv, th, pulse, n)
    } else {
        Seq::empty()
    }) + spec_plain_pass(nodes, state.hover, sv, th, pulse, n) + spec_highlight_pass(
        nodes,
        state.hover,
        sv,
        th,
        pulse,
        n,
    ) + seq![DrawCmd::PopTransform] + (if th.background.vignette > 0 {
        seq![
            DrawCmd::Vignette {
                width: state.width,
                height: state.height,
                strength: th.background.vignette,
            },
        ]
    } else {
        Seq::empty()
    })
}

/// Render one frame of `state` under theme `th` and sizing `c` into a
/// draw-command list.
#[verifier::rlimit(100)]
pub fn render(state: &ForceGraphState, th: &Theme, c: &ScaleConfig) -> (cmds: Vec<DrawCmd>)
    requires
        state.wf(),
        th.wf(),
        c.wf(),
    ensures
        ({
            let sv = spec_scaled(*c, state.transform.k as int);
            cmds@ == spec_render(
                *state,
                *th,
                sv,
                spec_dash_offset(sv, state.flow_time as int, th.edge.flow_speed as int),
            )
        }),
{
    let sv = ScaledValues::new(c, state.transform.k);
    let doff = sv.dash_offset(state.flow_time, th.edge.flow_speed);
    proof {
        assert(sv == spec_scaled(*c, state.transform.k as int));
    }
    let pulse: i64 = if th.node.pulse_intensity > 0 {
        proof {
            assert(state.flow_time as u64 * (th.node.pulse_speed as u64)
                <= 100_000_000_000_000_000) by (nonlinear_arith)
                requires
                    0 <= state.flow_time as u64 <= 1_000_000_000_000,
                    0 <= th.node.pulse_speed as u64 <= 100_000,
            ;
        }
        let phase: u64 = (state.flow_time as u64) * (th.node.pulse_speed as u64) / 1000;
        let wave = sin_wave(phase as i64);
        proof {
            crate::transform::lemma_mul_div_ratio_bound(
                wave as int,
                th.node.pulse_intensity as int,
                1000,
                1000,
                1,
            );
        }
        mul_div(wave, th.node.pulse_intensity, 1000)
    } else {
        0
    };
    proof {
        assert(pulse == spec_pulse(*th, state.flow_time as int));
        assert(-1000 <= pulse <= 1000);
    }
    let nodes = &state.graph.nodes;
    let edges = &state.graph.edges;
    let mut out: Vec<DrawCmd> = Vec::new();
    if th.background.use_gradient {
        out.push(
            DrawCmd::BackgroundGradient {
                width: state.width,
                height: state.height,
                inner: th.background.color_secondary,
                outer: th.background.color,
            },
        );
    } else {
        out.push(
            DrawCmd::BackgroundFill {
                width: state.width,
                height: state.height,
                color: th.background.color,
            },
        );
    }
    out.push(
        DrawCmd::PushTransform {
            x: state.transform.x,
            y: state.transform.y,
            k: state.transform.k,
        },
    );
    let ghost mut acc = seq![spec_background_cmd(*state, *th)]
        + seq![
        (DrawCmd::PushTransform { x: state.transform.x, y: state.transform.y, k: state.transform.k }),
    ];
    proof {
        assert(out@ =~= acc);
    }
    if th.edge.glow_intensity > 0 {
        run_edge_glow_pass(&mut out, nodes, edges, &state.hover, &sv, th);
    }
    proof {
        acc = acc + (if th.edge.glow_intensity > 0 {
            spec_edge_glow_pass(nodes@, edges@, state.hover, sv, *th, edges@.len() as int)
        } else {
            Seq::empty()
        });
        assert(out@ =~= acc);
    }
    run_edge_main_pass(&mut out, nodes, edges, &state.hover, &sv, th, doff);
    proof {
        acc = acc + spec_edge_main_pass(
            nodes@,
            edges@,
            state.hover,
            sv,
            *th,
            doff as int,
            edges@.len() as int,
        );
        assert(out@ =~= acc);
    }
    if th.node.glow_intensity > 0 {
        run_node_glow_pass(&mut out, nodes, &state.hover, &sv, th, pulse);
    }
    proof {
        acc = acc + (if th.node.glow_intensity > 0 {
            spec_node_glow_pass(nodes@, state.hover, sv, *th, pulse as int, nodes@.len() as int)
        } else {
            Seq::empty()
        });
        assert(out@ =~= acc);
    }
    run_plain_pass(&mut out, nodes, &state.hover, &sv, th, pulse);
    proof {
        acc = acc + spec_plain_pass(nodes@, state.hover, sv, *th, pulse as int, nodes@.len() as int);
        assert(out@ =~= acc);
    }
    run_highlight_pass(&mut out, nodes, &state.hover, &sv, th, pulse);
    proof {
        acc = acc + spec_highlight_pass(
            nodes@,
            state.hover,
            sv,
            *th,
            pulse as int,
            nodes@.len() as int,
        );
        assert(out@ =~= acc);
    }
    out.push(DrawCmd::PopTransform);
    proof {
        acc = acc + seq![DrawCmd::PopTransform];
        assert(out@ =~= acc);
    }
    if th.background.vignette > 0 {
        out.push(
            DrawCmd::Vignette {
                width: state.width,
                height: state.height,
                strength: th.background.vignette,
            },
        );
    }
    proof {
        acc = acc + (if th.background.vignette > 0 {
            seq![
                (DrawCmd::Vignette {
                    width: state.width,
                    height: state.height,
                    strength: th.background.vignette,
                }),
            ]
        } else {
            Seq::empty()
        });
        assert(out@ =~= acc);
        assert(acc =~= spec_render(
            *state,
            *th,
            sv,
            spec_dash_offset(sv, state.flow_time as int, th.edge.flow_speed as int),
        ));
    }
    out
}

/// The scaled values as a function of configuration and zoom.
pub open spec fn spec_scaled(c: ScaleConfig, k: int) -> ScaledValues {
    ScaledValues {
        k: k as i64,
        node_radius: crate::scale::spec_node_radius(c, k) as i64,
        edge_line_width: spec_per_k(c.edge_width as int, k) as i64,
        arrow_size: crate::scale::spec_arrow_size(c, k) as i64,
        dash_len: spec_per_k(c.dash_len as int, k) as i64,
        dash_gap: spec_per_k(c.dash_gap as int, k) as i64,
        dash_alpha: crate::scale::spec_dash_alpha(c, k) as i64,
        arrow_alpha: crate::scale::spec_dash_alpha(c, k) as i64,
        cull_arrows: k < c.cull_arrow_k,
        ring_offset: spec_per_k(c.ring_offset as int, k) as i64,
        ring_width: spec_per_k(c.ring_width as int, k) as i64,
        label_size: spec_per_k(c.label_size as int, k) as i64,
    }
}

} // verus!
