//! A graph of notes: nodes that hold a thought, and directed relations between them.

pub mod edge;
pub mod graph;
pub mod node;
