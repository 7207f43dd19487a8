//! A read-only virtual filesystem over a tree of entries fixed at build
//! time, a deterministic renderer for an evaluator's runtime values, and a
//! flattener for chains of evaluation diagnostics.

pub mod path;
pub mod payload;
pub mod tree;
pub mod vfs;
pub mod value;
pub mod render;
pub mod diagnostic;
pub mod output;
