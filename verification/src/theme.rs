//! Style configuration: background, edge and node appearance.
//!
//! All strengths and rates are fixed-point milli values, consumed
//! read-only by the render pass each frame.

use vstd::prelude::*;
use crate::color::Color;

verus! {

/// Background treatment.
pub struct BackgroundStyle {
    /// Base fill color (the gradient's rim when enabled).
    pub color: Color,
    /// Gradient center color.
    pub color_secondary: Color,
    /// Paint a radial gradient instead of a flat fill.
    pub use_gradient: bool,
    /// Vignette overlay strength, milli (0 disables it).
    pub vignette: i64,
}

/// Edge appearance.
pub struct EdgeStyle {
    /// Stroke color.
    pub color: Color,
    /// Glow stroke color.
    pub glow_color: Color,
    /// Glow strength, milli (0 disables the glow pass).
    pub glow_intensity: i64,
    /// Draw long edges as quadratic curves.
    pub curved: bool,
    /// Curvature tension, milli.
    pub curve_tension: i64,
    /// Dash-flow speed, milli dash units per second.
    pub flow_speed: i64,
}

/// Node appearance.
pub struct NodeStyle {
    /// Shade node bodies with a radial gradient.
    pub use_gradient: bool,
    /// Glow strength, milli (0 disables the glow pass).
    pub glow_intensity: i64,
    /// How much of the node's own color tints its glow, milli.
    pub glow_saturation: i64,
    /// Pulse frequency, milli-turns per second.
    pub pulse_speed: i64,
    /// Pulse amplitude, milli (0 disables the pulse).
    pub pulse_intensity: i64,
    /// Border stroke width in milli screen units (0 disables it).
    pub border_width: i64,
    /// Border stroke color.
    pub border_color: Color,
}

/// The whole style configuration.
pub struct Theme {
    pub background: BackgroundStyle,
    pub edge: EdgeStyle,
    pub node: NodeStyle,
}

impl Theme {
    /// The ranges the renderer is verified for.
    pub open spec fn wf(&self) -> bool {
        &&& 0 <= self.background.vignette <= 1000
        &&& 0 <= self.background.color.a <= 1000
        &&& 0 <= self.background.color_secondary.a <= 1000
        &&& 0 <= self.edge.glow_intensity <= 1000
        &&& 0 <= self.edge.curve_tension <= 1000
        &&& 0 <= self.edge.flow_speed <= 100_000
        &&& 0 <= self.edge.color.a <= 1000
        &&& 0 <= self.edge.glow_color.a <= 1000
        &&& 0 <= self.node.glow_intensity <= 1000
        &&& 0 <= self.node.glow_saturation <= 1000
        &&& 0 <= self.node.pulse_speed <= 100_000
        &&& 0 <= self.node.pulse_intensity <= 1000
        &&& 0 <= self.node.border_width <= 100_000
        &&& 0 <= self.node.border_color.a <= 1000
    }
}

impl Default for Theme {
    /// A dark theme with gradient background, glows, curves, dash flow
    /// and a gentle pulse.
    fn default() -> (t: Theme)
        ensures
            t.wf(),
            t.background.use_gradient,
            t.edge.curved,
            t.edge.glow_intensity > 0,
            t.node.glow_intensity > 0,
            t.node.pulse_intensity > 0,
    {
        Theme {
            background: BackgroundStyle {
                color: Color { r: 10, g: 12, b: 24, a: 1000 },
                color_secondary: Color { r: 24, g: 28, b: 48, a: 1000 },
                use_gradient: true,
                vignette: 350,
            },
            edge: EdgeStyle {
                color: Color { r: 120, g: 140, b: 190, a: 900 },
                glow_color: Color { r: 80, g: 120, b: 255, a: 600 },
                glow_intensity: 500,
                curved: true,
                curve_tension: 400,
                flow_speed: 12_000,
            },
            node: NodeStyle {
                use_gradient: true,
                glow_intensity: 600,
                glow_saturation: 800,
                pulse_speed: 400,
                pulse_intensity: 60,
                border_width: 1_500,
                border_color: Color { r: 255, g: 255, b: 255, a: 250 },
            },
        }
    }
}

} // verus!
