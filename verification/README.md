# node_forge_render

Verified building blocks of a node-graph renderer, written in Verus.

- `src/pass_debug/` turns the WGSL module of a render pass into the documents
  a debugging UI shows: an outline of the module (entry points, functions,
  globals, types and constants), the dependency targets of every named value
  with the source range that names it, and the reaching definitions of those
  targets through each function body (`flow.rs`), and for each target a
  dependency tree: the definitions that reach it, the conditions that govern
  them and what their values depend on, down through access paths, calls and
  vector components (`access.rs`, `trees.rs`). WGSL is parsed by naga
  behind one trusted call (`lowering.rs`); everything after it works on the
  plain model in `ir.rs`.
- `src/render_plan/` holds the blend-state rules of a render pass, the parser
  of JS-like convolution kernels, the vertex-shader helper declarations and
  the vertical flip of RGBA8 images.
- `src/text.rs` holds the string helpers both use.
- `app/` is ordinary Rust around the library: serde-facing copies of the
  documents and the conversions to and from JSON and image values.
