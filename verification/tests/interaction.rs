use graphview::state::ForceGraphState;
use graphview::types::{GraphData, GraphLink, GraphNode};

fn node(id: &str) -> GraphNode {
    GraphNode { id: id.to_string(), label: None, color: None, group: None }
}

fn link(source: &str, target: &str) -> GraphLink {
    GraphLink { source: source.to_string(), target: target.to_string() }
}

fn path_graph() -> GraphData {
    GraphData {
        nodes: vec![node("0"), node("1"), node("2")],
        links: vec![link("0", "1"), link("1", "2")],
    }
}

// Width and height in milli screen units (an 800 by 600 surface).
const W: i64 = 800_000;
const H: i64 = 600_000;

#[test]
fn empty_graph_is_harmless() {
    let mut state = ForceGraphState::new(&GraphData { nodes: vec![], links: vec![] }, W, H);
    state.tick(16);
    assert_eq!(state.node_at_position(0, 0), None);
    state.pointer_down(0, 0);
    assert!(state.pan.active);
    state.pointer_up();
    state.set_hover(None);
    assert_eq!(state.max_intensity(), 0);
}

#[test]
fn construction_resolves_links() {
    let state = ForceGraphState::new(&path_graph(), W, H);
    assert_eq!(state.graph.nodes.len(), 3);
    assert_eq!(state.graph.edges.len(), 2);
    assert_eq!(state.graph.edges[0], (0, 1));
    assert_eq!(state.graph.edges[1], (1, 2));
    assert_eq!(state.transform.x, W / 2);
    assert_eq!(state.transform.y, H / 2);
    assert_eq!(state.transform.k, 1000);
    assert!(state.animation_running);
}

#[test]
fn unresolvable_links_are_dropped() {
    let data = GraphData {
        nodes: vec![node("a"), node("b")],
        links: vec![link("a", "missing"), link("a", "b"), link("nope", "b")],
    };
    let state = ForceGraphState::new(&data, W, H);
    assert_eq!(state.graph.edges.len(), 1);
    assert_eq!(state.graph.edges[0], (0, 1));
}

#[test]
fn duplicate_ids_resolve_to_last_occurrence() {
    let data = GraphData {
        nodes: vec![node("x"), node("x"), node("y")],
        links: vec![link("x", "y")],
    };
    let state = ForceGraphState::new(&data, W, H);
    assert_eq!(state.graph.edges[0], (1, 2));
}

#[test]
fn hover_path_center_highlights_both_neighbors() {
    // Hovering the middle node of 0 - 1 - 2 marks 0 and 2 as neighbors,
    // lights both incident edges, and by symmetry both neighbors read
    // the same intensity.
    let mut state = ForceGraphState::new(&path_graph(), W, H);
    state.set_hover(Some(1));
    assert!(state.hover.neighbors[0]);
    assert!(!state.hover.neighbors[1]);
    assert!(state.hover.neighbors[2]);
    // Let the dwell delay fill so the intensity starts rising.
    state.tick(100);
    assert!(state.max_intensity() > 0);
    assert!(state.edge_intensity(0, 1) > 0);
    assert!(state.edge_intensity(1, 2) > 0);
    assert_eq!(state.node_intensity(0), state.node_intensity(2));
    assert!(state.is_hovered(1));
    assert!(!state.is_hovered(0));
    assert!(state.is_highlighted(0));
    assert!(state.is_highlighted(2));
    assert!(state.has_active_highlight());
}

#[test]
fn highlight_symmetry_both_directions() {
    let mut state = ForceGraphState::new(&path_graph(), W, H);
    state.set_hover(Some(0));
    state.tick(100);
    assert!(state.hover.neighbors[1]);
    assert!(state.edge_intensity(0, 1) > 0);

    let mut other = ForceGraphState::new(&path_graph(), W, H);
    other.set_hover(Some(1));
    other.tick(100);
    assert!(other.hover.neighbors[0]);
    assert!(other.edge_intensity(0, 1) > 0);
}

#[test]
fn highlight_decays_to_exactly_zero() {
    let mut state = ForceGraphState::new(&path_graph(), W, H);
    state.set_hover(Some(1));
    for _ in 0..20 {
        state.tick(16);
    }
    assert!(state.max_intensity() > 0);
    state.set_hover(None);
    assert!(state.has_active_highlight());
    let mut steps = 0;
    while state.max_intensity() > 0 {
        state.tick(16);
        steps += 1;
        assert!(steps <= 1000, "decay did not converge");
    }
    assert_eq!(state.max_intensity(), 0);
    assert!(!state.has_active_highlight());
}

#[test]
fn wheel_zoom_step_and_fixpoint() {
    // A wheel-out event at screen (50, 50) from unit zoom lands on
    // exactly 0.9x, and the world point under the pointer is unmoved.
    let mut state = ForceGraphState::new(&path_graph(), W, H);
    let before = state.screen_to_graph(50_000, 50_000);
    state.on_wheel(50_000, 50_000, 100);
    assert_eq!(state.transform.k, 900);
    let after = state.screen_to_graph(50_000, 50_000);
    assert_eq!(before, after);
}

#[test]
fn wheel_zoom_in_and_clamping() {
    let mut state = ForceGraphState::new(&path_graph(), W, H);
    state.on_wheel(0, 0, -100);
    assert_eq!(state.transform.k, 1100);
    for _ in 0..100 {
        state.on_wheel(0, 0, -100);
    }
    assert_eq!(state.transform.k, 10_000);
    for _ in 0..200 {
        state.on_wheel(0, 0, 100);
    }
    assert_eq!(state.transform.k, 100);
}

#[test]
fn zoom_fixpoint_error_is_tiny_at_any_step() {
    let mut state = ForceGraphState::new(&path_graph(), W, H);
    for round in 0..40 {
        let px = 123_456 + round * 7_000;
        let py = 654_321 - round * 3_000;
        let before = state.screen_to_graph(px, py);
        state.on_wheel(px, py, if round % 3 == 0 { -10 } else { 10 });
        let after = state.screen_to_graph(px, py);
        assert!((before.0 - after.0).abs() <= 11, "x moved by {}", before.0 - after.0);
        assert!((before.1 - after.1).abs() <= 11, "y moved by {}", before.1 - after.1);
    }
}

#[test]
fn drag_pins_node_where_dropped() {
    // Drag node 0 from world (10, 10) to (20, 30); after release it is
    // anchored there and one hundred ticks leave it untouched.
    let mut state = ForceGraphState::new(&path_graph(), W, H);
    state.graph.nodes[0].x = 10_000;
    state.graph.nodes[0].y = 10_000;
    state.graph.nodes[1].x = 300_000;
    state.graph.nodes[1].y = 300_000;
    state.graph.nodes[2].x = -300_000;
    state.graph.nodes[2].y = -300_000;
    // Unit zoom, translation (W/2, H/2): world w maps to w + offset.
    let (sx, sy) = (10_000 + W / 2, 10_000 + H / 2);
    state.pointer_down(sx, sy);
    assert!(state.drag.active);
    assert_eq!(state.drag.node_idx, Some(0));
    state.pointer_move(sx + 10_000, sy + 20_000);
    state.pointer_up();
    assert!(!state.drag.active);
    assert!(state.graph.nodes[0].is_anchor);
    assert_eq!(state.graph.nodes[0].x, 20_000);
    assert_eq!(state.graph.nodes[0].y, 30_000);
    for _ in 0..100 {
        state.tick(16);
    }
    assert_eq!(state.graph.nodes[0].x, 20_000);
    assert_eq!(state.graph.nodes[0].y, 30_000);
    assert!(state.graph.nodes[0].is_anchor);
}

#[test]
fn drag_tracks_pointer_one_to_one_under_zoom() {
    let mut state = ForceGraphState::new(&path_graph(), W, H);
    state.graph.nodes[0].x = 0;
    state.graph.nodes[0].y = 0;
    state.graph.nodes[1].x = 400_000;
    state.graph.nodes[2].x = -400_000;
    // Zoom out to 0.9x; the screen delta is divided by the zoom.
    state.on_wheel(W / 2, H / 2, 100);
    assert_eq!(state.transform.k, 900);
    let sx = state.transform.x;
    let sy = state.transform.y;
    state.pointer_down(sx, sy);
    assert_eq!(state.drag.node_idx, Some(0));
    state.pointer_move(sx + 9_000, sy);
    // 9000 milli screen units at 0.9x zoom is 10000 milli world units.
    assert_eq!(state.graph.nodes[0].x, 10_000);
    state.pointer_up();
}

#[test]
fn miss_starts_pan_and_moves_view() {
    let mut state = ForceGraphState::new(&path_graph(), W, H);
    for nd in [0, 1, 2] {
        state.graph.nodes[nd].x = 0;
        state.graph.nodes[nd].y = (nd as i64) * 100_000;
    }
    let (tx, ty) = (state.transform.x, state.transform.y);
    // Far away from every node: a miss, so a pan starts.
    state.pointer_down(5_000_000, 5_000_000);
    assert!(!state.drag.active);
    assert!(state.pan.active);
    state.pointer_move(5_040_000, 4_990_000);
    assert_eq!(state.transform.x, tx + 40_000);
    assert_eq!(state.transform.y, ty - 10_000);
    state.pointer_up();
    assert!(!state.pan.active);
}

#[test]
fn pointer_leave_clears_everything() {
    let mut state = ForceGraphState::new(&path_graph(), W, H);
    state.set_hover(Some(1));
    state.pointer_down(5_000_000, 5_000_000);
    state.pointer_leave();
    assert!(!state.drag.active);
    assert!(!state.pan.active);
    assert_eq!(state.hover.node, None);
}

#[test]
fn hit_test_is_zoom_invariant_on_screen() {
    // The projected node position hits the node itself at minimum,
    // unit, and maximum zoom.
    let mut state = ForceGraphState::new(&path_graph(), W, H);
    state.graph.nodes[0].x = -150_000;
    state.graph.nodes[0].y = 40_000;
    state.graph.nodes[1].x = 0;
    state.graph.nodes[1].y = 0;
    state.graph.nodes[2].x = 150_000;
    state.graph.nodes[2].y = -40_000;
    for k in [100, 900, 1000, 5500, 10_000] {
        state.transform.k = k;
        for idx in 0..3 {
            let nd = &state.graph.nodes[idx];
            let (sx, sy) = state.transform.to_screen(nd.x, nd.y);
            assert_eq!(state.node_at_position(sx, sy), Some(idx), "zoom {}", k);
        }
    }
}

#[test]
fn hit_test_top_most_wins() {
    let mut state = ForceGraphState::new(&path_graph(), W, H);
    // Nodes 0 and 2 overlap; the later-inserted one is on top.
    state.graph.nodes[0].x = 0;
    state.graph.nodes[0].y = 0;
    state.graph.nodes[1].x = 500_000;
    state.graph.nodes[1].y = 500_000;
    state.graph.nodes[2].x = 2_000;
    state.graph.nodes[2].y = 0;
    assert_eq!(state.node_at_position(W / 2, H / 2), Some(2));
}

#[test]
fn hit_test_miss_returns_none() {
    let mut state = ForceGraphState::new(&path_graph(), W, H);
    for nd in 0..3 {
        state.graph.nodes[nd].x = 0;
        state.graph.nodes[nd].y = 0;
    }
    assert_eq!(state.node_at_position(W / 2 + 900_000, H / 2), None);
}

#[test]
fn resize_keeps_layout() {
    let mut state = ForceGraphState::new(&path_graph(), W, H);
    let positions: Vec<(i64, i64)> =
        state.graph.nodes.iter().map(|n| (n.x, n.y)).collect();
    state.resize(1_024_000, 768_000);
    assert_eq!(state.width, 1_024_000);
    assert_eq!(state.height, 768_000);
    let after: Vec<(i64, i64)> = state.graph.nodes.iter().map(|n| (n.x, n.y)).collect();
    assert_eq!(positions, after);
}

#[test]
fn ticks_are_deterministic() {
    // Two runs from the same data through the same timesteps agree bit
    // for bit.
    let mut a = ForceGraphState::new(&path_graph(), W, H);
    let mut b = ForceGraphState::new(&path_graph(), W, H);
    for step in 0..50 {
        let dt = 16 + (step % 3);
        a.tick(dt);
        b.tick(dt);
    }
    for i in 0..3 {
        assert_eq!(a.graph.nodes[i].x, b.graph.nodes[i].x);
        assert_eq!(a.graph.nodes[i].y, b.graph.nodes[i].y);
        assert_eq!(a.graph.nodes[i].vx, b.graph.nodes[i].vx);
        assert_eq!(a.graph.nodes[i].vy, b.graph.nodes[i].vy);
    }
}

#[test]
fn repulsion_pushes_free_nodes_apart() {
    let data = GraphData { nodes: vec![node("a"), node("b")], links: vec![] };
    let mut state = ForceGraphState::new(&data, W, H);
    state.graph.nodes[0].x = -10_000;
    state.graph.nodes[0].y = 0;
    state.graph.nodes[1].x = 10_000;
    state.graph.nodes[1].y = 0;
    let gap_before = state.graph.nodes[1].x - state.graph.nodes[0].x;
    for _ in 0..10 {
        state.tick(16);
    }
    let gap_after = state.graph.nodes[1].x - state.graph.nodes[0].x;
    assert!(gap_after > gap_before, "{} vs {}", gap_after, gap_before);
}

#[test]
fn coincident_nodes_separate_deterministically() {
    let data = GraphData { nodes: vec![node("a"), node("b")], links: vec![] };
    let mut state = ForceGraphState::new(&data, W, H);
    for nd in 0..2 {
        state.graph.nodes[nd].x = 77_000;
        state.graph.nodes[nd].y = 77_000;
    }
    state.tick(16);
    assert_ne!(
        (state.graph.nodes[0].x, state.graph.nodes[0].y),
        (state.graph.nodes[1].x, state.graph.nodes[1].y)
    );
}

#[test]
fn hover_switch_keeps_delay_and_unhover_snapshots() {
    let mut state = ForceGraphState::new(&path_graph(), W, H);
    state.set_hover(Some(0));
    state.tick(100);
    let lit = state.max_intensity();
    assert!(lit > 0);
    // Switching directly between nodes keeps the highlight running.
    state.set_hover(Some(1));
    assert_eq!(state.max_intensity(), lit);
    assert_eq!(state.hover.prev_node, None);
    // Releasing snapshots the outgoing set for the fade.
    state.set_hover(None);
    assert_eq!(state.hover.prev_node, Some(1));
    assert!(state.hover.prev_neighbors[0]);
    assert!(state.hover.prev_neighbors[2]);
}
