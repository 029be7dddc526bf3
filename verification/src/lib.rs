//! Interactive force-directed graph engine.
//!
//! The engine evolves a node-link layout frame by frame (charge repulsion,
//! spring attraction, damping, per-node anchoring), maps pointer coordinates
//! between screen and world space under pan/zoom, runs a hover-highlight
//! state machine with delayed, eased transitions, and turns each frame's
//! snapshot into an explicit list of draw commands.
//!
//! All quantities are fixed-point integers: coordinates, zoom and eased
//! intensities are held in thousandths ("milli" units), time in
//! milliseconds.  The host shell that owns the actual drawing surface
//! converts to its own float types at the boundary.

use vstd::prelude::*;

pub mod color;
pub mod fixed;
pub mod graph;
pub mod highlight;
pub mod physics;
pub mod render;
pub mod scale;
pub mod state;
pub mod theme;
pub mod transform;
pub mod types;

verus! {

} // verus!
