use graphview::state::ForceGraphState;
use graphview::types::{GraphData, GraphLink, GraphNode};

fn node(id: &str) -> GraphNode {
    GraphNode { id: id.to_string(), label: None, color: None, group: None }
}

fn pair(linked: bool) -> ForceGraphState {
    let data = GraphData {
        nodes: vec![node("a"), node("b")],
        links: if linked {
            vec![GraphLink { source: "a".to_string(), target: "b".to_string() }]
        } else {
            vec![]
        },
    };
    let mut state = ForceGraphState::new(&data, 800_000, 600_000);
    state.graph.nodes[0].x = -50_000;
    state.graph.nodes[0].y = 0;
    state.graph.nodes[0].vx = 0;
    state.graph.nodes[0].vy = 0;
    state.graph.nodes[1].x = 50_000;
    state.graph.nodes[1].y = 0;
    state.graph.nodes[1].vx = 0;
    state.graph.nodes[1].vy = 0;
    state
}

#[test]
fn one_repulsion_step_exact() {
    // Two masses of 10 at distance 100: the raw charge force
    // 150e6 * 100 / 100_000 = 150_000 milli saturates at the per-pair
    // clamp of 100_000.  The velocity gained is
    // 100_000 * (3000 * 16) / (10 * 1000) = 480_000, damped by 0.9 to
    // 432_000, moving each node 432_000 * 16 / 1000 = 6_912 apart.
    let mut state = pair(false);
    state.tick(16);
    assert_eq!(state.graph.nodes[0].x, -56_912);
    assert_eq!(state.graph.nodes[1].x, 56_912);
    assert_eq!(state.graph.nodes[0].vx, -432_000);
    assert_eq!(state.graph.nodes[1].vx, 432_000);
    assert_eq!(state.graph.nodes[0].y, 0);
    assert_eq!(state.graph.nodes[1].y, 0);
}

#[test]
fn one_spring_step_exact() {
    // With an edge the spring pulls back by 50 * 100_000 / 1000 = 5_000
    // milli, leaving a net push of 95_000.  The velocity is
    // 95_000 * 48_000 / 10_000 = 456_000, damped to 410_400; the move
    // of 410_400 * 16 / 1000 = 6_566.4 floors toward minus infinity,
    // one milli further on the negative side.
    let mut state = pair(true);
    state.tick(16);
    assert_eq!(state.graph.nodes[0].vx, -410_400);
    assert_eq!(state.graph.nodes[0].x, -56_567);
    assert_eq!(state.graph.nodes[1].x, 56_566);
}

#[test]
fn anchored_node_exerts_but_ignores_forces() {
    let mut state = pair(false);
    state.graph.nodes[0].is_anchor = true;
    state.tick(16);
    // The anchored node is untouched, the free one still pushed.
    assert_eq!(state.graph.nodes[0].x, -50_000);
    assert_eq!(state.graph.nodes[0].vx, 0);
    assert_eq!(state.graph.nodes[1].x, 56_912);
}

#[test]
fn highlight_easing_exact() {
    let data = GraphData {
        nodes: vec![node("a"), node("b")],
        links: vec![GraphLink { source: "a".to_string(), target: "b".to_string() }],
    };
    let mut state = ForceGraphState::new(&data, 800_000, 600_000);
    state.set_hover(Some(0));
    // The dwell delay fills at 80 ms; the remaining rise step is
    // (1000 - 0) * 1800 * 100 / 1_000_000 = 180 milli.
    state.tick(100);
    assert_eq!(state.max_intensity(), 180);
    // Next step approaches: (1000 - 180) * 1800 * 100 / 1e6 = 147.
    state.tick(100);
    assert_eq!(state.max_intensity(), 327);
    // Release decays by 327 * 1260 * 100 / 1e6 = 41.
    state.set_hover(None);
    state.tick(100);
    assert_eq!(state.max_intensity(), 286);
}

#[test]
fn flow_clock_accumulates() {
    let mut state = pair(false);
    state.tick(16);
    state.tick(20);
    assert_eq!(state.flow_time, 36);
}
