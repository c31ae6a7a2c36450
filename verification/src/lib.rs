//! Interaction and geometry core of a 2D node-graph editor.
//!
//! The library owns the graph model (nodes, directed connections), the
//! world/screen coordinate transform, curve geometry and hit-testing, and
//! the pointer-driven drag state machine (node drag, link drag, canvas pan).
//! A host shell polls input, feeds one snapshot per frame to the state
//! machine, and reads the model back to draw it.

pub mod geometry;
pub mod hittest;
pub mod interact;
pub mod laws;
pub mod model;
pub mod text;
