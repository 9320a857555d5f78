//! Render-pass shader debug documents.
//!
//! The representation is intentionally small: the combined WGSL source of a
//! pass plus collapsible trees built from the module's intermediate representation.

pub mod model;
pub mod source_mapping;

pub use model::{
    PassDebugAstNode, PassDebugDependencyNode, PassDebugDependencyTarget, PassDebugSourceRange,
};
pub mod ir;
pub mod lowering;
pub mod ast;
pub mod shapes;
pub mod dependency;
pub mod document;
pub mod labels;
pub mod definitions;
pub mod flow;
pub mod access;
pub mod trees;

pub use document::PassDebugSource;
