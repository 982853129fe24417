//! Compiles a graph of shading operations into the source of a fragment shader.
//!
//! `shape` holds the lattice of value shapes and the coercions between them,
//! `builder` the value that resolution threads through the graph and the code
//! emitter, `nodes` the resolution rule of each kind of node, and `pass` the
//! evaluator that walks the graph from a root. `editor` holds what the graph
//! editor offers: the menu of node kinds and the widgets that nodes carry.
use vstd::prelude::*;

pub mod builder;
pub mod decimal;
pub mod editor;
pub mod error;
pub mod graph;
pub mod nodes;
pub mod pass;
pub mod shape;

pub use builder::ShaderBuilder;
pub use decimal::Decimal;
pub use editor::{Menu, WidgetKind, WidgetPlugins};
pub use error::ShaderError;
pub use graph::{Edge, ShaderGraph};
pub use nodes::ShaderNodes;
pub use pass::{compile, CompilePass, Compiled, Slot};
pub use shape::ShaderIO;

verus! {

} // verus!
