//! An interactive Bezier-curve editor core: a control-point data model driven
//! by pointer events, de Casteljau curve evaluation, coordinate-space
//! conversions, and a batched 2D renderer that turns draw requests into a
//! bounded number of GPU submissions.
//!
//! Coordinates are kept in a fixed-point normalized space (see [`geometry`]),
//! so every stored point is resolution independent. The renderer emits its
//! work as render commands; a platform layer executes them against the actual
//! graphics API.

pub mod application;
pub mod application_event;
pub mod bezier;
pub mod editor_config;
pub mod editor_layer;
pub mod geometry;
pub mod renderer;
