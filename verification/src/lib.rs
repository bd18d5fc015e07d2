//! Expression graphs over single-precision scalars.
//!
//! A [`graph::Graph`] is an arena of node records. Every record holds the bit
//! pattern of a scalar, an optional gradient, the operation that produced it and
//! the set of its operands, and an optional label. Nodes are addressed through
//! [`node::Value`] handles: copying a handle never copies a record, so a label
//! written through one copy is read through every other.
//!
//! Scalars are stored as IEEE 754 binary32 bit patterns. Arithmetic on them and
//! their decimal text are left to the caller; everything that concerns the shape
//! of the graph, the comparison of nodes and the framing of their text is done,
//! and proved, here.

pub mod scalar;
pub mod node;
pub mod graph;
pub mod render;
pub mod laws;

