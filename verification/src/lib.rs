//! An ASCII plotting engine for character-cell displays.
//!
//! The engine maps between two integer coordinate systems: *terminal space*
//! (origin top left, +y down, bounded by the surface) and *graph space*
//! (origin at a movable center, +y up, unbounded). A viewport is an offset
//! plus a scale exponent; one terminal cell spans `0.5^scale` graph units,
//! so every mapping is an exact power-of-two scaling rounded toward zero.
//! Layers (axes, sampled function curves) answer, cell by cell, which
//! character they draw, and a compositor assembles the frame, giving the
//! front-most layer priority.
//!
//! Evaluating a plotted function is the caller's business: the engine takes
//! one already-truncated sample per terminal column (or an off-surface
//! sentinel where the evaluation was not finite) and does everything else.

pub mod coords;
pub mod terminal_graph;
pub mod widgets;
