//! The debug document of one render pass: its combined WGSL source, the AST
//! outline of the parsed module and the module's dependency targets.

use vstd::prelude::*;

use super::ast::{
    ast_leaf, ast_node_is, ast_nodes_are, module_ok, module_to_ast_tree, one_node, opt_view,
    spec_module_tree, tree_branch, tree_leaf, AstTree,
};
use super::dependency::{dependency_index, spec_dependency_index, tviews};
use super::ir::ShaderModule;
use super::lowering::{front_end_returns, parse_wgsl_module, wgsl_front_end};
use super::flow::first_at;
use super::model::{PassDebugAstNode, PassDebugDependencyNode, PassDebugDependencyTarget};
use super::trees::{dependency_trees, first_key_index, has_first, module_trees};
use crate::text::owned;

verus! {

/// What a render pass's debug view shows.
#[derive(Debug, PartialEq, Eq)]
pub struct PassDebugSource {
    pub pass_name: String,
    pub module_source: String,
    pub target_texture: Option<String>,
    pub target_size: Option<[u32; 2]>,
    pub ast_tree: Vec<PassDebugAstNode>,
    pub dependency_targets: Vec<PassDebugDependencyTarget>,
    /// The dependency tree of each target, keyed by the target's id, in the
    /// order of the targets.
    pub dependency_trees: Vec<(String, PassDebugDependencyNode)>,
    pub dependency_root_target_id: Option<String>,
    pub dependency_error: Option<String>,
    pub parse_error: Option<String>,
}

/// The document shows the parsed module `m` of its source: the outline of
/// `m`, the dependency index of `m` and no error.
pub open spec fn shows_module(d: PassDebugSource, m: ShaderModule) -> bool {
    let index = spec_dependency_index(encode_source(d), m);
    &&& tviews(d.dependency_targets@) == index.0
    &&& opt_view(d.dependency_root_target_id) == index.1
    &&& ast_nodes_are(d.ast_tree@, spec_module_tree(m, encode_source(d), d.dependency_targets@))
    &&& module_trees(d.dependency_trees@, m, encode_source(d), tviews(d.dependency_targets@))
    &&& d.dependency_error is None
    &&& d.parse_error is None
}

/// The target ids the trees are keyed by, in order.
pub open spec fn tree_keys(trees: Seq<(String, PassDebugDependencyNode)>) -> Seq<Seq<char>> {
    trees.map_values(|p: (String, PassDebugDependencyNode)| p.0@)
}

pub open spec fn encode_source(d: PassDebugSource) -> Seq<u8> {
    vstd::utf8::encode_utf8(d.module_source@)
}

/// The outline shown for a source that did not parse.
pub open spec fn parse_error_tree(error: Seq<char>) -> AstTree {
    tree_branch("Parse Error"@, seq![tree_leaf(error)])
}

/// The document reports the error `error` in place of a module: a single
/// `Parse Error` branch holding the message, and no targets.
pub open spec fn shows_error(d: PassDebugSource, error: Seq<char>) -> bool {
    &&& opt_view(d.parse_error) == Some(error)
    &&& ast_nodes_are(d.ast_tree@, seq![parse_error_tree(error)])
    &&& d.dependency_targets@.len() == 0
    &&& d.dependency_trees@.len() == 0
    &&& d.dependency_root_target_id is None
    &&& d.dependency_error is None
}

impl PassDebugSource {
    /// The document of a parsed module.
    pub fn from_module(
        pass_name: String,
        module_source: String,
        target_texture: Option<String>,
        target_size: Option<[u32; 2]>,
        module: &ShaderModule,
    ) -> (r: Self)
        requires
            module_ok(*module),
        ensures
            r.pass_name == pass_name,
            r.module_source == module_source,
            r.target_texture == target_texture,
            r.target_size == target_size,
            shows_module(r, *module),
    {
        let (targets, root) = dependency_index(module, module_source.as_str());
        let ast_tree = module_to_ast_tree(module, module_source.as_str(), &targets);
        let trees = dependency_trees(module, module_source.as_str(), &targets);
        PassDebugSource {
            pass_name,
            module_source,
            target_texture,
            target_size,
            ast_tree,
            dependency_targets: targets,
            dependency_trees: trees,
            dependency_root_target_id: root,
            dependency_error: None,
            parse_error: None,
        }
    }

    /// The document of a source that did not parse, reporting `error`.
    pub fn from_parse_error(
        pass_name: String,
        module_source: String,
        target_texture: Option<String>,
        target_size: Option<[u32; 2]>,
        error: String,
    ) -> (r: Self)
        ensures
            r.pass_name == pass_name,
            r.module_source == module_source,
            r.target_texture == target_texture,
            r.target_size == target_size,
            shows_error(r, error@),
    {
        let ghost e = error@;
        let leaf = ast_leaf(error.clone());
        let kids = one_node(leaf, Ghost(tree_leaf(e)));
        let node = PassDebugAstNode::branch(owned("Parse Error"), kids);
        proof {
            super::ast::lemma_nodes_prefix(kids@, seq![tree_leaf(e)], 1);
        }
        let ast_tree = one_node(node, Ghost(parse_error_tree(e)));
        PassDebugSource {
            pass_name,
            module_source,
            target_texture,
            target_size,
            ast_tree,
            dependency_targets: Vec::new(),
            dependency_trees: Vec::new(),
            dependency_root_target_id: None,
            dependency_error: None,
            parse_error: Some(error),
        }
    }

    /// Parses `module_source` as WGSL and builds its document, keeping the
    /// pass's render target. A source that does not parse gives a document
    /// that reports the parser's message. Sources on which the front end
    /// does not return (see `parse_wgsl_module`) are left out.
    pub fn from_wgsl_with_render_target(
        pass_name: &str,
        module_source: &str,
        target_texture: Option<String>,
        target_size: Option<[u32; 2]>,
    ) -> (r: Self)
        requires
            front_end_returns(module_source@),
        ensures
            r.pass_name@ == pass_name@,
            r.module_source@ == module_source@,
            r.target_texture == target_texture,
            r.target_size == target_size,
            match wgsl_front_end(module_source@) {
                Some(Ok(m)) => shows_module(r, m),
                Some(Err(e)) => shows_error(r, e),
                None => false,
            },
    {
        let pass_name = owned(pass_name);
        let source = owned(module_source);
        match parse_wgsl_module(module_source) {
            Ok(module) => Self::from_module(pass_name, source, target_texture, target_size, &module),
            Err(error) => Self::from_parse_error(pass_name, source, target_texture, target_size, error),
        }
    }

    /// The dependency tree of the target with id `id`.
    pub fn dependency_tree(&self, id: &str) -> (r: Option<&PassDebugDependencyNode>)
        ensures
            match r {
                Some(n) => has_first(tree_keys(self.dependency_trees@), id@) && *n == self.dependency_trees@[first_key_index(
                    tree_keys(self.dependency_trees@),
                    id@,
                )].1,
                None => !has_first(tree_keys(self.dependency_trees@), id@),
            },
    {
        let ghost keys = tree_keys(self.dependency_trees@);
        let key = owned(id);
        let mut k: usize = 0;
        while k < self.dependency_trees.len()
            invariant
                keys == tree_keys(self.dependency_trees@),
                key@ == id@,
                k <= self.dependency_trees@.len(),
                forall|q: int| 0 <= q < k ==> keys[q] != id@,
            decreases self.dependency_trees@.len() - k,
        {
            assert(keys[k as int] == self.dependency_trees@[k as int].0@);
            if self.dependency_trees[k].0 == key {
                assert(first_at(keys, id@, k as int));
                proof {
                    super::flow::lemma_first_unique(keys, id@, k as int, first_key_index(keys, id@));
                }
                return Some(&self.dependency_trees[k].1);
            }
            k = k + 1;
        }
        None
    }

    /// [`Self::from_wgsl_with_render_target`] without a render target.
    pub fn from_wgsl(pass_name: &str, module_source: &str) -> (r: Self)
        requires
            front_end_returns(module_source@),
        ensures
            r.pass_name@ == pass_name@,
            r.module_source@ == module_source@,
            r.target_texture is None,
            r.target_size is None,
            match wgsl_front_end(module_source@) {
                Some(Ok(m)) => shows_module(r, m),
                Some(Err(e)) => shows_error(r, e),
                None => false,
            },
    {
        Self::from_wgsl_with_render_target(pass_name, module_source, None, None)
    }
}

} // verus!
