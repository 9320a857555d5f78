//! Render-pass shader debug documents and render-plan helpers.
//!
//! `pass_debug` turns a WGSL module into UI-facing trees: an AST outline of
//! the module, the dependency targets of every named value, with the source
//! range of each name, and the dependency tree of each target. `render_plan`
//! holds the blend-state rules, the JS-like convolution kernel parser, the
//! vertex-shader helper declarations and the image prepass flip used by the
//! render planner. `text` holds the string helpers shared by both.

pub mod pass_debug;
pub mod render_plan;
pub mod text;
