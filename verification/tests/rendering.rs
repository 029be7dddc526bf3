use graphview::fixed::{clamp64, isqrt, mul_div, sin_wave, smooth_step};
use graphview::render::{render, DrawCmd};
use graphview::scale::{ScaleConfig, ScaledValues};
use graphview::state::ForceGraphState;
use graphview::theme::Theme;
use graphview::types::{GraphData, GraphLink, GraphNode};

fn node(id: &str, label: Option<&str>) -> GraphNode {
    GraphNode {
        id: id.to_string(),
        label: label.map(|l| l.to_string()),
        color: Some("#336699".to_string()),
        group: None,
    }
}

fn small_graph() -> GraphData {
    GraphData {
        nodes: vec![node("a", Some("Alpha")), node("b", None)],
        links: vec![GraphLink { source: "a".to_string(), target: "b".to_string() }],
    }
}

#[test]
fn fixed_point_primitives() {
    assert_eq!(isqrt(0), 0);
    assert_eq!(isqrt(15), 3);
    assert_eq!(isqrt(16), 4);
    assert_eq!(isqrt(u64::MAX), 0xffff_ffff);
    // Flooring division, also for negative products.
    assert_eq!(mul_div(7, 3, 2), 10);
    assert_eq!(mul_div(-7, 3, 2), -11);
    assert_eq!(mul_div(-6, 3, 2), -9);
    assert_eq!(clamp64(5, -3, 3), 3);
    assert_eq!(clamp64(-5, -3, 3), -3);
    assert_eq!(clamp64(2, -3, 3), 2);
}

#[test]
fn waveforms() {
    assert_eq!(sin_wave(0), 0);
    assert_eq!(sin_wave(250), 1000);
    assert_eq!(sin_wave(500), 0);
    assert_eq!(sin_wave(750), -1000);
    assert_eq!(sin_wave(1250), 1000);
    assert_eq!(smooth_step(0), 0);
    assert_eq!(smooth_step(500), 500);
    assert_eq!(smooth_step(1000), 1000);
    assert_eq!(smooth_step(250), 156);
}

#[test]
fn scaled_values_inflate_radius_when_zoomed_out() {
    let c = ScaleConfig::defaults();
    let far = ScaledValues::new(&c, 100);
    // The minimum screen radius dominates the base radius at 0.1x.
    assert_eq!(far.node_radius, 30_000);
    let near = ScaledValues::new(&c, 1000);
    assert_eq!(near.node_radius, 5_000);
}

#[test]
fn scaled_strokes_are_zoom_invariant_on_screen() {
    let c = ScaleConfig::defaults();
    for k in [200i64, 500, 1000, 4000] {
        let sv = ScaledValues::new(&c, k);
        // World width times zoom is the screen width, constant up to
        // fixed-point floor loss.
        let on_screen = sv.edge_line_width * k / 1000;
        assert!((on_screen - c.edge_width).abs() <= 40, "zoom {}: {}", k, on_screen);
    }
}

#[test]
fn dash_offset_wraps_its_cycle() {
    let c = ScaleConfig::defaults();
    let sv = ScaledValues::new(&c, 1000);
    let cycle = sv.dash_len + sv.dash_gap;
    let off = sv.dash_offset(100_000, 12_000);
    assert!(0 <= off && off < cycle);
    assert_eq!(sv.dash_offset(0, 12_000), 0);
}

#[test]
fn frame_structure() {
    let state = ForceGraphState::new(&small_graph(), 800_000, 600_000);
    let theme = Theme::default();
    let config = ScaleConfig::defaults();
    let cmds = render(&state, &theme, &config);
    assert!(matches!(cmds[0], DrawCmd::BackgroundGradient { .. }));
    assert!(matches!(cmds[1], DrawCmd::PushTransform { .. }));
    let pops = cmds.iter().filter(|c| matches!(c, DrawCmd::PopTransform)).count();
    assert_eq!(pops, 1);
    assert!(matches!(cmds.last().unwrap(), DrawCmd::Vignette { .. }));
    // One disc per node, and the labeled node got its label.
    let discs = cmds.iter().filter(|c| matches!(c, DrawCmd::Disc { .. })).count();
    assert_eq!(discs, 2);
    let labels: Vec<&DrawCmd> =
        cmds.iter().filter(|c| matches!(c, DrawCmd::Label { .. })).collect();
    assert_eq!(labels.len(), 1);
    match labels[0] {
        DrawCmd::Label { text, .. } => assert_eq!(text, "Alpha"),
        _ => unreachable!(),
    }
}

#[test]
fn frame_has_edge_stroke_and_arrow() {
    let mut state = ForceGraphState::new(&small_graph(), 800_000, 600_000);
    state.graph.nodes[0].x = -100_000;
    state.graph.nodes[0].y = 0;
    state.graph.nodes[1].x = 100_000;
    state.graph.nodes[1].y = 0;
    let mut theme = Theme::default();
    theme.edge.curved = false;
    let config = ScaleConfig::defaults();
    let cmds = render(&state, &theme, &config);
    let lines: Vec<&DrawCmd> =
        cmds.iter().filter(|c| matches!(c, DrawCmd::Line { .. })).collect();
    // Glow pass and main pass each stroke the one edge.
    assert_eq!(lines.len(), 2);
    match lines[1] {
        DrawCmd::Line { x1, x2, y1, y2, .. } => {
            // Shortened by the node radius at the source and by radius
            // plus arrowhead at the target.
            assert_eq!(*x1, -100_000 + 5_000);
            assert_eq!(*x2, 100_000 - 5_000 - 6_000);
            assert_eq!(*y1, 0);
            assert_eq!(*y2, 0);
        },
        _ => unreachable!(),
    }
    let arrows = cmds.iter().filter(|c| matches!(c, DrawCmd::Triangle { .. })).count();
    assert_eq!(arrows, 1);
}

#[test]
fn long_edges_curve_when_enabled() {
    let mut state = ForceGraphState::new(&small_graph(), 800_000, 600_000);
    state.graph.nodes[0].x = -100_000;
    state.graph.nodes[0].y = 0;
    state.graph.nodes[1].x = 100_000;
    state.graph.nodes[1].y = 0;
    let theme = Theme::default();
    assert!(theme.edge.curved);
    let cmds = render(&state, &theme, &ScaleConfig::defaults());
    let curves = cmds.iter().filter(|c| matches!(c, DrawCmd::Curve { .. })).count();
    assert_eq!(curves, 2);
}

#[test]
fn degenerate_edges_draw_nothing() {
    let mut state = ForceGraphState::new(&small_graph(), 800_000, 600_000);
    for nd in 0..2 {
        state.graph.nodes[nd].x = 0;
        state.graph.nodes[nd].y = 0;
    }
    let cmds = render(&state, &Theme::default(), &ScaleConfig::defaults());
    let strokes = cmds
        .iter()
        .filter(|c| matches!(c, DrawCmd::Line { .. } | DrawCmd::Curve { .. }))
        .count();
    assert_eq!(strokes, 0);
}

#[test]
fn flat_theme_drops_gradient_glow_and_vignette() {
    let state = ForceGraphState::new(&small_graph(), 800_000, 600_000);
    let mut theme = Theme::default();
    theme.background.use_gradient = false;
    theme.background.vignette = 0;
    theme.edge.glow_intensity = 0;
    theme.node.glow_intensity = 0;
    let cmds = render(&state, &theme, &ScaleConfig::defaults());
    assert!(matches!(cmds[0], DrawCmd::BackgroundFill { .. }));
    assert!(matches!(cmds.last().unwrap(), DrawCmd::PopTransform));
    let glows = cmds.iter().filter(|c| matches!(c, DrawCmd::Glow { .. })).count();
    assert_eq!(glows, 0);
}

#[test]
fn hovered_node_gets_rings() {
    let mut state = ForceGraphState::new(&small_graph(), 800_000, 600_000);
    state.set_hover(Some(1));
    for _ in 0..30 {
        state.tick(16);
    }
    assert!(state.max_intensity() > 0);
    let cmds = render(&state, &Theme::default(), &ScaleConfig::defaults());
    let rings = cmds.iter().filter(|c| matches!(c, DrawCmd::Ring { .. })).count();
    // Every node carries a border ring; the hovered one adds two hover
    // rings.
    assert_eq!(rings, 2 + 2);
}
