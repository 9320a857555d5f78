//! Dependency trees: for a target, the definitions that reach its uses and,
//! through their values, the targets and conditions they depend on.
//!
//! A tree is expanded only for its root target; any other target met on the
//! way is shown as a reference node. Definitions of the root met inside its
//! own tree are expanded again (from the depth of a fresh root), which only
//! ever happens for definitions recorded earlier, so the walk ends.

use vstd::prelude::*;
use vstd::string::StringSliceAdditionalSpecFns;
use vstd::utf8::encode_utf8;

use super::access::{
    access_path_target, call_result_components, component_count, eview, expr_at, expr_at_exec, expr_span_range,
    named_target, named_expression_target_id,
    opt_indices, opt_path, reference_label, reference_label_for_expr, scope_function, scope_function_exec,
    source_range_for_expr, spec_access_path, spec_component_count, strings_view, value_occurrence_range,
    definition_value_occurrence_range, expression_component_count, AccessPathTarget, AccessPathView, ExprRef,
    arena_len,
};
use super::ast::{function_scope, global_id, scoped_id, spec_function_scope, spec_global_id, spec_scoped_id};
use super::definitions::DefinitionEnv;
use super::dependency::{tview, tviews, TargetSpec};
use super::flow::{
    bump, count_of, first_at, first_of, flow_calls, flow_counts, has_key, keys_of, known_target, opt_string, put,
    CallDependency, ControlDependency, DefinitionFlow, DefinitionSite, ReturnDependency,
};
use super::ir::{IrExprKind, IrExprLeaf, IrExprOp, IrExpression, IrFunction, ShaderModule};
use super::labels::{
    combine_access_projection, dedupe_projection, dependency_target_node_label, spec_combine_access_projection,
    spec_dedupe, spec_dependency_target_node_label,
};
use super::model::{PassDebugDependencyNode, PassDebugDependencyTarget, PassDebugSourceRange};
use super::source_mapping::{
    enclosed_arguments, find_enclosed_arguments_range, find_identifier_occurrence_range, opt_range,
    source_line_byte_range, spec_line_range, spec_occurrence_range,
};
use crate::text::{concat, concat3, decimal, owned, spec_decimal};

verus! {

/// Trees deeper than this show `[depth limit]` or a reference.
pub const MAX_DEPENDENCY_DEPTH: usize = 48;

// ---------------------------------------------------------------------------
// Trees as values
// ---------------------------------------------------------------------------

/// The abstract value of a dependency node.
pub struct DepTree {
    pub label: Seq<char>,
    pub edge_label: Option<Seq<char>>,
    pub display_label: Option<Seq<char>>,
    pub source_range: Option<PassDebugSourceRange>,
    pub definition_source_range: Option<PassDebugSourceRange>,
    pub target_id: Option<Seq<char>>,
    pub reference: bool,
    pub children: Seq<DepTree>,
}

pub open spec fn dep_leaf(label: Seq<char>) -> DepTree {
    DepTree {
        label,
        edge_label: None,
        display_label: None,
        source_range: None,
        definition_source_range: None,
        target_id: None,
        reference: false,
        children: seq![],
    }
}

pub open spec fn dep_branch(label: Seq<char>, children: Seq<DepTree>) -> DepTree {
    DepTree { children, ..dep_leaf(label) }
}

pub open spec fn dep_target(label: Seq<char>, target_id: Seq<char>, children: Seq<DepTree>) -> DepTree {
    DepTree { target_id: Some(target_id), children, ..dep_leaf(label) }
}

/// The node `n` holds exactly the tree `t`.
pub open spec fn dep_node_is(n: PassDebugDependencyNode, t: DepTree) -> bool
    decreases t, 1int,
{
    &&& n.label@ == t.label
    &&& opt_string(n.edge_label) == t.edge_label
    &&& opt_string(n.display_label) == t.display_label
    &&& n.source_range == t.source_range
    &&& n.definition_source_range == t.definition_source_range
    &&& opt_string(n.target_id) == t.target_id
    &&& n.reference == t.reference
    &&& n.children@.len() == t.children.len()
    &&& dep_prefix_is(n.children@, t.children, t.children.len() as int)
}

/// The first `k` nodes of `ns` hold the first `k` trees of `ts`.
pub open spec fn dep_prefix_is(ns: Seq<PassDebugDependencyNode>, ts: Seq<DepTree>, k: int) -> bool
    decreases ts, 0int, k,
{
    if k <= 0 {
        true
    } else {
        dep_prefix_is(ns, ts, k - 1) && (k - 1 < ts.len() ==> dep_node_is(ns[k - 1], ts[k - 1]))
    }
}

/// The nodes `ns` hold exactly the trees `ts`, in order.
pub open spec fn dep_nodes_are(ns: Seq<PassDebugDependencyNode>, ts: Seq<DepTree>) -> bool {
    ns.len() == ts.len() && forall|i: int| 0 <= i < ts.len() ==> #[trigger] dep_node_is(ns[i], ts[i])
}

proof fn lemma_dep_nodes_prefix(ns: Seq<PassDebugDependencyNode>, ts: Seq<DepTree>, k: int)
    requires
        dep_nodes_are(ns, ts),
    ensures
        dep_prefix_is(ns, ts, k),
    decreases k,
{
    if k > 0 {
        lemma_dep_nodes_prefix(ns, ts, k - 1);
        if k - 1 < ts.len() {
            assert(dep_node_is(ns[k - 1], ts[k - 1]));
        }
    }
}

proof fn lemma_dep_nodes_concat(
    a: Seq<PassDebugDependencyNode>,
    ta: Seq<DepTree>,
    b: Seq<PassDebugDependencyNode>,
    tb: Seq<DepTree>,
)
    requires
        dep_nodes_are(a, ta),
        dep_nodes_are(b, tb),
    ensures
        dep_nodes_are(a + b, ta + tb),
{
    assert forall|i: int| 0 <= i < (ta + tb).len() implies #[trigger] dep_node_is((a + b)[i], (ta + tb)[i]) by {
        if i < ta.len() {
            assert(dep_node_is(a[i], ta[i]));
        } else {
            assert(dep_node_is(b[i - ta.len()], tb[i - ta.len()]));
        }
    }
}

/// A node holding `t` built from its parts.
fn dep_node(
    t: Ghost<DepTree>,
    label: String,
    edge_label: Option<String>,
    display_label: Option<String>,
    source_range: Option<PassDebugSourceRange>,
    definition_source_range: Option<PassDebugSourceRange>,
    target_id: Option<String>,
    reference: bool,
    children: Vec<PassDebugDependencyNode>,
) -> (r: PassDebugDependencyNode)
    requires
        label@ == t@.label,
        opt_string(edge_label) == t@.edge_label,
        opt_string(display_label) == t@.display_label,
        source_range == t@.source_range,
        definition_source_range == t@.definition_source_range,
        opt_string(target_id) == t@.target_id,
        reference == t@.reference,
        dep_nodes_are(children@, t@.children),
    ensures
        dep_node_is(r, t@),
{
    proof {
        lemma_dep_nodes_prefix(children@, t@.children, t@.children.len() as int);
    }
    PassDebugDependencyNode {
        label,
        edge_label,
        display_label,
        source_range,
        definition_source_range,
        target_id,
        reference,
        children,
    }
}

fn leaf_node(label: String) -> (r: PassDebugDependencyNode)
    ensures
        dep_node_is(r, dep_leaf(label@)),
{
    let children: Vec<PassDebugDependencyNode> = Vec::new();
    assert(dep_nodes_are(children@, seq![]));
    dep_node(Ghost(dep_leaf(label@)), label, None, None, None, None, None, false, children)
}

fn one_node(n: PassDebugDependencyNode, Ghost(t): Ghost<DepTree>) -> (r: Vec<PassDebugDependencyNode>)
    requires
        dep_node_is(n, t),
    ensures
        dep_nodes_are(r@, seq![t]),
{
    let mut v: Vec<PassDebugDependencyNode> = Vec::new();
    v.push(n);
    assert(dep_node_is(v@[0], seq![t][0]));
    v
}

fn append_nodes(
    a: &mut Vec<PassDebugDependencyNode>,
    b: Vec<PassDebugDependencyNode>,
    Ghost(ta): Ghost<Seq<DepTree>>,
    Ghost(tb): Ghost<Seq<DepTree>>,
)
    requires
        dep_nodes_are(old(a)@, ta),
        dep_nodes_are(b@, tb),
    ensures
        dep_nodes_are(final(a)@, ta + tb),
{
    let ghost a0 = a@;
    let mut rest = b;
    let ghost b0 = rest@;
    a.append(&mut rest);
    proof {
        lemma_dep_nodes_concat(a0, ta, b0, tb);
    }
}

// ---------------------------------------------------------------------------
// What the trees are built from
// ---------------------------------------------------------------------------

/// The module, its source, its targets (in their final order), the
/// definition walk and the definitions that reach the end of each body.
pub struct TreeInputs<'a> {
    pub m: &'a ShaderModule,
    pub source: &'a str,
    pub targets: &'a Vec<PassDebugDependencyTarget>,
    pub flow: &'a DefinitionFlow,
    pub finals: &'a DefinitionEnv,
}

pub struct TreeCtx {
    pub m: ShaderModule,
    pub b: Seq<u8>,
    pub known: Seq<TargetSpec>,
    pub flow: DefinitionFlow,
    pub finals: DefinitionEnv,
}

pub open spec fn tctx<'a>(i: TreeInputs<'a>) -> TreeCtx {
    TreeCtx { m: *i.m, b: i.source.spec_bytes(), known: tviews(i.targets@), flow: *i.flow, finals: *i.finals }
}

pub open spec fn env_keys(e: DefinitionEnv) -> Seq<Seq<char>> {
    e.entries@.map_values(|x: (String, Vec<usize>)| x.0@)
}

/// `keys` holds `k`.
pub open spec fn has_first<K>(keys: Seq<K>, k: K) -> bool {
    exists|q: int| first_at(keys, k, q)
}

/// The position of the first `k` in `keys`.
pub open spec fn first_key_index<K>(keys: Seq<K>, k: K) -> int {
    choose|q: int| first_at(keys, k, q)
}

/// The definitions `e` lists for `k` (its first entry for `k`).
pub open spec fn env_get(e: DefinitionEnv, k: Seq<char>) -> Option<Seq<usize>> {
    if exists|i: int| first_at(env_keys(e), k, i) {
        Some(e.entries@[choose|i: int| first_at(env_keys(e), k, i)].1@)
    } else {
        None
    }
}

proof fn lemma_first_at_unique<K>(keys: Seq<K>, k: K, i: int, j: int)
    requires
        first_at(keys, k, i),
        first_at(keys, k, j),
    ensures
        i == j,
{
    if i < j {
        assert(keys[i] != k);
    } else if j < i {
        assert(keys[j] != k);
    }
}

fn env_get_exec<'a>(e: &'a DefinitionEnv, k: &String) -> (r: Option<&'a Vec<usize>>)
    ensures
        match r {
            Some(v) => env_get(*e, k@) == Some(v@),
            None => env_get(*e, k@) == None::<Seq<usize>>,
        },
{
    let ghost keys = env_keys(*e);
    let mut i: usize = 0;
    while i < e.entries.len()
        invariant
            keys == env_keys(*e),
            keys.len() == e.entries@.len(),
            i <= e.entries@.len(),
            forall|j: int| 0 <= j < i ==> keys[j] != k@,
        decreases e.entries@.len() - i,
    {
        assert(keys[i as int] == e.entries@[i as int].0@);
        if e.entries[i].0 == *k {
            assert(first_at(keys, k@, i as int));
            proof {
                lemma_first_at_unique(keys, k@, i as int, choose|j: int| first_at(keys, k@, j));
            }
            return Some(&e.entries[i].1);
        }
        i = i + 1;
    }
    None
}

pub open spec fn env_table_keys(t: Seq<super::flow::ExpressionEnv>) -> Seq<(Seq<char>, usize)> {
    t.map_values(|x: super::flow::ExpressionEnv| (x.scope@, x.handle))
}

/// The environment recorded for `e` by the walk, if any.
pub open spec fn expr_env(c: TreeCtx, e: (Option<Seq<char>>, usize)) -> Option<DefinitionEnv> {
    match e.0 {
        None => None,
        Some(s) => if has_first(env_table_keys(c.flow.expression_envs@), (s, e.1)) {
            Some(c.flow.expression_envs@[first_key_index(env_table_keys(c.flow.expression_envs@), (s, e.1))].env)
        } else {
            None
        },
    }
}

fn expr_env_exec<'a>(i: &TreeInputs<'a>, e: &ExprRef) -> (r: Option<&'a DefinitionEnv>)
    ensures
        match r {
            Some(v) => expr_env(tctx(*i), eview(*e)) == Some(*v),
            None => expr_env(tctx(*i), eview(*e)) == None::<DefinitionEnv>,
        },
{
    match &e.scope {
        None => None,
        Some(s) => {
            let t = &i.flow.expression_envs;
            let ghost keys = env_table_keys(tctx(*i).flow.expression_envs@);
            let ghost k = (s@, e.handle);
            let mut j: usize = 0;
            while j < t.len()
                invariant
                    t@ == tctx(*i).flow.expression_envs@,
                    k == (s@, e.handle),
                    eview(*e) == (Some(s@), e.handle),
                    keys == env_table_keys(tctx(*i).flow.expression_envs@),
                    keys.len() == t@.len(),
                    j <= t@.len(),
                    forall|q: int| 0 <= q < j ==> keys[q] != k,
                decreases t@.len() - j,
            {
                assert(keys[j as int] == (t@[j as int].scope@, t@[j as int].handle));
                if t[j].handle == e.handle && t[j].scope == *s {
                    assert(first_at(keys, k, j as int));
                    proof {
                        lemma_first_at_unique(keys, k, j as int, first_key_index(keys, k));
                    }
                    return Some(&t[j].env);
                }
                j = j + 1;
            }
            None
        },
    }
}

/// The environment a dependency walk uses: the one given, else the one
/// recorded for the expression.
pub open spec fn effective_env(c: TreeCtx, env: Option<DefinitionEnv>, e: (Option<Seq<char>>, usize)) -> Option<
    DefinitionEnv,
> {
    match env {
        Some(v) => Some(v),
        None => expr_env(c, e),
    }
}

pub open spec fn opt_env<'a>(o: Option<&'a DefinitionEnv>) -> Option<DefinitionEnv> {
    match o {
        Some(v) => Some(*v),
        None => None,
    }
}

/// Another target than the root of the tree being built.
pub open spec fn should_reference(stack: Seq<Seq<char>>, tid: Seq<char>) -> bool {
    stack.len() > 0 && stack[0] != tid
}

pub open spec fn is_root(stack: Seq<Seq<char>>, tid: Seq<char>) -> bool {
    stack.len() > 0 && stack[0] == tid
}

fn should_reference_target(stack: &Vec<String>, tid: &String) -> (r: bool)
    ensures
        r == should_reference(strings_view(stack@), tid@),
{
    stack.len() > 0 && !(stack[0] == *tid)
}

fn is_root_target(stack: &Vec<String>, tid: &String) -> (r: bool)
    ensures
        r == is_root(strings_view(stack@), tid@),
{
    stack.len() > 0 && stack[0] == *tid
}

pub open spec fn or_range(a: Option<PassDebugSourceRange>, b: Option<PassDebugSourceRange>) -> Option<
    PassDebugSourceRange,
> {
    match a {
        Some(r) => Some(r),
        None => b,
    }
}

/// The definition range when it differs from the range the node shows.
pub open spec fn distinct_range(d: Option<PassDebugSourceRange>, r: Option<PassDebugSourceRange>) -> Option<
    PassDebugSourceRange,
> {
    match d {
        Some(x) => if r == Some(x) {
            None
        } else {
            Some(x)
        },
        None => None,
    }
}

pub open spec fn node_label(t: TargetSpec, display: Option<Seq<char>>) -> Seq<char> {
    spec_dependency_target_node_label(t.label, t.kind, t.name, display)
}

/// `target_reference_node`: a reference to target `tid`, showing `range`,
/// with the definition range (else the target's own range) when distinct.
pub open spec fn target_reference(
    c: TreeCtx,
    tid: Seq<char>,
    edge: Option<Seq<char>>,
    display: Option<Seq<char>>,
    range: Option<PassDebugSourceRange>,
    def_range: Option<PassDebugSourceRange>,
) -> Option<DepTree> {
    match known_target(c.known, tid) {
        None => None,
        Some(t) => Some(
            DepTree {
                label: node_label(t, display),
                edge_label: edge,
                display_label: display,
                source_range: range,
                definition_source_range: distinct_range(or_range(def_range, t.source_range), range),
                target_id: Some(t.id),
                reference: true,
                children: seq![],
            },
        ),
    }
}

pub open spec fn opt_str<'a>(o: Option<&'a str>) -> Option<Seq<char>> {
    match o {
        Some(s) => Some(s@),
        None => None,
    }
}

fn display_as_str<'a>(display: &'a Option<String>) -> (r: Option<&'a str>)
    ensures
        opt_str(r) == opt_string(*display),
{
    match display {
        Some(d) => Some(d.as_str()),
        None => None,
    }
}

fn target_reference_node(
    i: &TreeInputs,
    tid: &String,
    edge: Option<String>,
    display: Option<String>,
    range: Option<PassDebugSourceRange>,
    def_range: Option<PassDebugSourceRange>,
) -> (r: Option<PassDebugDependencyNode>)
    ensures
        match r {
            Some(n) => target_reference(tctx(*i), tid@, opt_string(edge), opt_string(display), range, def_range)
                matches Some(t) && dep_node_is(n, t),
            None => target_reference(tctx(*i), tid@, opt_string(edge), opt_string(display), range, def_range)
                is None,
        },
{
    match super::flow::find_known(i.targets, tid) {
        None => None,
        Some(k) => {
            let t = &i.targets[k];
            let ghost tree = target_reference(tctx(*i), tid@, opt_string(edge), opt_string(display), range, def_range)->0;
            let label = dependency_target_node_label(t, display_as_str(&display));
            let d = match def_range {
                Some(x) => Some(x),
                None => t.source_range,
            };
            let dr = super::labels::distinct_definition_source_range(d, range);
            let children: Vec<PassDebugDependencyNode> = Vec::new();
            assert(dep_nodes_are(children@, tree.children));
            Some(dep_node(Ghost(tree), label, edge, display, range, dr, Some(t.id.clone()), true, children))
        },
    }
}


// ---------------------------------------------------------------------------
// Labels of definitions
// ---------------------------------------------------------------------------

/// Two definition sites of `tid` are recorded.
pub open spec fn has_two_sites(defs: Seq<DefinitionSite>, tid: Seq<char>) -> bool {
    exists|i: int, j: int| 0 <= i < j < defs.len() && defs[i].target_id@ == tid && defs[j].target_id@ == tid
}

fn two_sites(defs: &Vec<DefinitionSite>, tid: &String) -> (r: bool)
    ensures
        r == has_two_sites(defs@, tid@),
{
    let mut first: Option<usize> = None;
    let mut i: usize = 0;
    while i < defs.len()
        invariant
            i <= defs@.len(),
            match first {
                None => forall|j: int| 0 <= j < i ==> defs@[j].target_id@ != tid@,
                Some(f) => f < i && defs@[f as int].target_id@ == tid@ && forall|j: int|
                    0 <= j < i && j != f ==> defs@[j].target_id@ != tid@,
            },
        decreases defs@.len() - i,
    {
        if defs[i].target_id == *tid {
            match first {
                Some(f) => {
                    assert(defs@[f as int].target_id@ == tid@ && defs@[i as int].target_id@ == tid@);
                    return true;
                },
                None => {
                    first = Some(i);
                },
            }
        }
        i = i + 1;
    }
    proof {
        if has_two_sites(defs@, tid@) {
            let (a, b) = choose|a: int, b: int|
                0 <= a < b < defs@.len() && defs@[a].target_id@ == tid@ && defs@[b].target_id@ == tid@;
            match first {
                None => {},
                Some(f) => {
                    if a != f {
                    } else {
                        assert(b != f);
                    }
                },
            }
        }
    }
    false
}

/// The label a definition node shows: the given display label or the
/// target's name, with the line of the shown (or defined) range when the
/// target has more than one definition.
pub open spec fn definition_display(
    c: TreeCtx,
    t: TargetSpec,
    d: DefinitionSite,
    display: Option<Seq<char>>,
    range: Option<PassDebugSourceRange>,
) -> Seq<char> {
    let base = match display {
        Some(x) => x,
        None => t.name,
    };
    if has_two_sites(c.flow.definitions@, t.id) {
        match or_range(range, d.source_range) {
            Some(r) => base + " ("@ + spec_decimal(r.line as nat) + ")"@,
            None => base,
        }
    } else {
        base
    }
}

fn definition_display_label(
    i: &TreeInputs,
    t: &PassDebugDependencyTarget,
    d: &DefinitionSite,
    display: Option<String>,
    range: Option<PassDebugSourceRange>,
) -> (r: String)
    ensures
        r@ == definition_display(tctx(*i), tview(*t), *d, opt_string(display), range),
{
    let base = match display {
        Some(x) => x,
        None => t.name.clone(),
    };
    if two_sites(&i.flow.definitions, &t.id) {
        let shown = match range {
            Some(r) => Some(r),
            None => d.source_range,
        };
        match shown {
            Some(r) => {
                let digits = decimal(r.line as usize);
                let mut out = concat3(base.as_str(), " (", digits.as_str());
                out.append(")");
                out
            },
            None => base,
        }
    } else {
        base
    }
}

// ---------------------------------------------------------------------------
// What a target is
// ---------------------------------------------------------------------------

pub enum KindView {
    Global(usize),
    Argument(Seq<char>, usize),
    Local(Seq<char>, usize),
    Named(Seq<char>, usize),
    Return(Seq<char>),
}

pub enum TargetKind {
    Global(usize),
    Argument(String, usize),
    Local(String, usize),
    Named(String, usize),
    Return(String),
}

pub open spec fn kind_view(k: TargetKind) -> KindView {
    match k {
        TargetKind::Global(h) => KindView::Global(h),
        TargetKind::Argument(s, i) => KindView::Argument(s@, i),
        TargetKind::Local(s, h) => KindView::Local(s@, h),
        TargetKind::Named(s, h) => KindView::Named(s@, h),
        TargetKind::Return(s) => KindView::Return(s@),
    }
}

pub open spec fn global_ids(m: ShaderModule) -> Seq<Seq<char>> {
    Seq::new(m.globals@.len(), |i: int| spec_global_id(i as nat))
}

pub open spec fn argument_ids(scope: Seq<char>, f: IrFunction) -> Seq<Seq<char>> {
    Seq::new(f.arguments@.len(), |i: int| spec_scoped_id(scope, "arg"@, i as nat))
}

pub open spec fn local_ids(scope: Seq<char>, f: IrFunction) -> Seq<Seq<char>> {
    Seq::new(f.locals@.len(), |i: int| spec_scoped_id(scope, "local"@, i as nat))
}

pub open spec fn named_ids(scope: Seq<char>, f: IrFunction) -> Seq<Seq<char>> {
    Seq::new(f.named_expressions@.len(), |j: int| spec_scoped_id(scope, "expr"@, f.named_expressions@[j].handle as nat))
}

/// What target `t` names: the item of its kind in its scope whose id is
/// the target's id.
pub open spec fn kind_of(c: TreeCtx, t: TargetSpec) -> Option<KindView> {
    if t.kind == "global"@ {
        if has_first(global_ids(c.m), t.id) {
            Some(KindView::Global(first_key_index(global_ids(c.m), t.id) as usize))
        } else {
            None
        }
    } else if t.kind == "return"@ {
        Some(KindView::Return(t.scope))
    } else {
        match scope_function(c.m, t.scope) {
            None => None,
            Some(f) => if t.kind == "argument"@ {
                if has_first(argument_ids(t.scope, f), t.id) {
                    Some(KindView::Argument(t.scope, first_key_index(argument_ids(t.scope, f), t.id) as usize))
                } else {
                    None
                }
            } else if t.kind == "local"@ {
                if has_first(local_ids(t.scope, f), t.id) {
                    Some(KindView::Local(t.scope, first_key_index(local_ids(t.scope, f), t.id) as usize))
                } else {
                    None
                }
            } else if t.kind == "let"@ {
                if has_first(named_ids(t.scope, f), t.id) {
                    Some(
                        KindView::Named(
                            t.scope,
                            f.named_expressions@[first_key_index(named_ids(t.scope, f), t.id)].handle,
                        ),
                    )
                } else {
                    None
                }
            } else {
                None
            },
        }
    }
}

/// The first of `ids` equal to `id`, searched in order.
fn find_id(ids: &Vec<String>, id: &String) -> (r: Option<usize>)
    ensures
        match r {
            Some(i) => i < ids@.len() && has_first(strings_view(ids@), id@) && first_key_index(strings_view(ids@), id@) == i,
            None => !has_first(strings_view(ids@), id@),
        },
{
    let ghost keys = strings_view(ids@);
    let mut i: usize = 0;
    while i < ids.len()
        invariant
            keys == strings_view(ids@),
            i <= ids@.len(),
            forall|j: int| 0 <= j < i ==> keys[j] != id@,
        decreases ids@.len() - i,
    {
        assert(keys[i as int] == ids@[i as int]@);
        if ids[i] == *id {
            assert(first_at(keys, id@, i as int));
            proof {
                lemma_first_at_unique(keys, id@, i as int, first_key_index(keys, id@));
            }
            return Some(i);
        }
        i = i + 1;
    }
    None
}

fn global_ids_exec(m: &ShaderModule) -> (r: Vec<String>)
    ensures
        strings_view(r@) == global_ids(*m),
{
    let mut out: Vec<String> = Vec::new();
    let mut i: usize = 0;
    while i < m.globals.len()
        invariant
            i <= m.globals@.len(),
            strings_view(out@) == global_ids(*m).take(i as int),
        decreases m.globals@.len() - i,
    {
        let ghost before = out@;
        out.push(global_id(i));
        assert(strings_view(out@) =~= strings_view(before).push(spec_global_id(i as nat)));
        assert(global_ids(*m).take(i + 1) =~= global_ids(*m).take(i as int).push(spec_global_id(i as nat)));
        i = i + 1;
    }
    assert(global_ids(*m).take(i as int) =~= global_ids(*m));
    out
}

fn scoped_ids_exec(scope: &str, kind: &str, n: usize) -> (r: Vec<String>)
    ensures
        strings_view(r@) == Seq::new(n as nat, |i: int| spec_scoped_id(scope@, kind@, i as nat)),
{
    let ghost want = Seq::new(n as nat, |i: int| spec_scoped_id(scope@, kind@, i as nat));
    let mut out: Vec<String> = Vec::new();
    let mut i: usize = 0;
    while i < n
        invariant
            i <= n,
            want == Seq::new(n as nat, |i: int| spec_scoped_id(scope@, kind@, i as nat)),
            strings_view(out@) == want.take(i as int),
        decreases n - i,
    {
        let ghost before = out@;
        out.push(scoped_id(scope, kind, i));
        assert(strings_view(out@) =~= strings_view(before).push(spec_scoped_id(scope@, kind@, i as nat)));
        assert(want.take(i + 1) =~= want.take(i as int).push(spec_scoped_id(scope@, kind@, i as nat)));
        i = i + 1;
    }
    assert(want.take(i as int) =~= want);
    out
}

fn named_ids_exec(scope: &str, f: &IrFunction) -> (r: Vec<String>)
    ensures
        strings_view(r@) == named_ids(scope@, *f),
{
    let mut out: Vec<String> = Vec::new();
    let mut i: usize = 0;
    while i < f.named_expressions.len()
        invariant
            i <= f.named_expressions@.len(),
            strings_view(out@) == named_ids(scope@, *f).take(i as int),
        decreases f.named_expressions@.len() - i,
    {
        let ghost before = out@;
        let h = f.named_expressions[i].handle;
        out.push(scoped_id(scope, "expr", h));
        assert(strings_view(out@) =~= strings_view(before).push(spec_scoped_id(scope@, "expr"@, h as nat)));
        assert(named_ids(scope@, *f).take(i + 1) =~= named_ids(scope@, *f).take(i as int).push(
            spec_scoped_id(scope@, "expr"@, h as nat),
        ));
        i = i + 1;
    }
    assert(named_ids(scope@, *f).take(i as int) =~= named_ids(scope@, *f));
    out
}

fn target_kind(i: &TreeInputs, t: &PassDebugDependencyTarget) -> (r: Option<TargetKind>)
    ensures
        match r {
            Some(k) => kind_of(tctx(*i), tview(*t)) == Some(kind_view(k)),
            None => kind_of(tctx(*i), tview(*t)) == None::<KindView>,
        },
{
    let m = i.m;
    if t.kind == owned("global") {
        let ids = global_ids_exec(m);
        return match find_id(&ids, &t.id) {
            Some(k) => Some(TargetKind::Global(k)),
            None => None,
        };
    }
    if t.kind == owned("return") {
        return Some(TargetKind::Return(t.scope.clone()));
    }
    match scope_function_exec(m, t.scope.as_str()) {
        None => None,
        Some(f) => {
            if t.kind == owned("argument") {
                let ids = scoped_ids_exec(t.scope.as_str(), "arg", f.arguments.len());
                assert(strings_view(ids@) == argument_ids(t.scope@, *f));
                match find_id(&ids, &t.id) {
                    Some(k) => Some(TargetKind::Argument(t.scope.clone(), k)),
                    None => None,
                }
            } else if t.kind == owned("local") {
                let ids = scoped_ids_exec(t.scope.as_str(), "local", f.locals.len());
                assert(strings_view(ids@) == local_ids(t.scope@, *f));
                match find_id(&ids, &t.id) {
                    Some(k) => Some(TargetKind::Local(t.scope.clone(), k)),
                    None => None,
                }
            } else if t.kind == owned("let") {
                let ids = named_ids_exec(t.scope.as_str(), f);
                match find_id(&ids, &t.id) {
                    Some(k) => Some(TargetKind::Named(t.scope.clone(), f.named_expressions[k].handle)),
                    None => None,
                }
            } else {
                None
            }
        },
    }
}

// ---------------------------------------------------------------------------
// Where operands are written
// ---------------------------------------------------------------------------

pub open spec fn is_call_result(x: IrExpression) -> bool {
    x.kind matches IrExprKind::Leaf { leaf: IrExprLeaf::CallResult(_), .. }
}

/// Where the operands of `current` are looked for: the expression's own
/// range (for a call, the text between its parentheses), then the line it
/// starts on.
pub open spec fn search_ranges(c: TreeCtx, current: (Option<Seq<char>>, usize)) -> Seq<(int, int)> {
    let own = match expr_span_range(c.m, c.b, current) {
        None => None::<(int, int)>,
        Some(sr) => {
            let whole = (sr.start_byte as int, sr.end_byte as int);
            if expr_at(c.m, current) matches Some(x) && is_call_result(x) {
                match enclosed_arguments(c.b, whole.0, whole.1) {
                    Some(inner) => Some(inner),
                    None => Some(whole),
                }
            } else {
                Some(whole)
            }
        },
    };
    let ranges = match own {
        Some(r) => seq![r],
        None => seq![],
    };
    let line = match expr_span_range(c.m, c.b, current) {
        Some(sr) => spec_line_range(c.b, sr.start_byte as int),
        None => None,
    };
    match line {
        Some(l) => if ranges.contains(l) {
            ranges
        } else {
            ranges.push(l)
        },
        None => ranges,
    }
}

pub open spec fn ranges_view(v: Seq<(usize, usize)>) -> Seq<(int, int)> {
    v.map_values(|r: (usize, usize)| (r.0 as int, r.1 as int))
}

fn search_ranges_exec(i: &TreeInputs, current: &ExprRef) -> (r: Vec<(usize, usize)>)
    ensures
        ranges_view(r@) == search_ranges(tctx(*i), eview(*current)),
{
    let ghost c = tctx(*i);
    let mut ranges: Vec<(usize, usize)> = Vec::new();
    let sr = source_range_for_expr(i.m, i.source, current);
    match sr {
        Some(sr) => {
            let whole = core::ops::Range { start: sr.start_byte, end: sr.end_byte };
            let call = match expr_at_exec(i.m, current) {
                Some(x) => match &x.kind {
                    IrExprKind::Leaf { leaf: IrExprLeaf::CallResult(_), .. } => true,
                    _ => false,
                },
                None => false,
            };
            if call {
                match find_enclosed_arguments_range(i.source, whole) {
                    Some(inner) => ranges.push((inner.start, inner.end)),
                    None => ranges.push((sr.start_byte, sr.end_byte)),
                }
            } else {
                ranges.push((sr.start_byte, sr.end_byte));
            }
            match source_line_byte_range(i.source, sr.start_byte) {
                Some(line) => {
                    let l = (line.start, line.end);
                    let present = ranges[0].0 == l.0 && ranges[0].1 == l.1;
                    assert(ranges_view(ranges@) =~= seq![(ranges@[0].0 as int, ranges@[0].1 as int)]);
                    if !present {
                        let ghost before = ranges@;
                        ranges.push(l);
                        assert(ranges_view(ranges@) =~= ranges_view(before).push((l.0 as int, l.1 as int)));
                    } else {
                        assert(ranges_view(ranges@).contains((l.0 as int, l.1 as int))) by {
                            assert(ranges_view(ranges@)[0] == (l.0 as int, l.1 as int));
                        }
                    }
                    proof {
                        if !present {
                            assert(!ranges_view(ranges@).drop_last().contains((l.0 as int, l.1 as int))) by {
                                assert(ranges_view(ranges@).drop_last() =~= seq![(ranges@[0].0 as int, ranges@[0].1 as int)]);
                            }
                        }
                    }
                },
                None => {
                    assert(ranges_view(ranges@) =~= seq![(ranges@[0].0 as int, ranges@[0].1 as int)]);
                },
            }
        },
        None => {
            assert(ranges_view(ranges@) =~= Seq::<(int, int)>::empty());
        },
    }
    ranges
}

/// The first of `ranges` in which the `k`-th occurrence of `label` is found.
pub open spec fn find_in_ranges(b: Seq<u8>, ranges: Seq<(int, int)>, label: Seq<char>, k: nat) -> Option<
    PassDebugSourceRange,
>
    decreases ranges.len(),
{
    if ranges.len() == 0 {
        None
    } else {
        match spec_occurrence_range(b, encode_utf8(label), ranges[0].0, ranges[0].1, k, false) {
            Some(r) => Some(r),
            None => find_in_ranges(b, ranges.drop_first(), label, k),
        }
    }
}

/// `operand_occurrence_range`: where operand `operand` is written among
/// `ranges`, by how often its label was met before; and the counts after.
pub open spec fn occurrence(
    c: TreeCtx,
    ranges: Seq<(int, int)>,
    operand: (Option<Seq<char>>, usize),
    counts: Seq<(Seq<char>, usize)>,
) -> (Option<PassDebugSourceRange>, Seq<(Seq<char>, usize)>) {
    if ranges.len() == 0 {
        (None, counts)
    } else {
        match reference_label(c.m, c.b, c.known, operand) {
            None => (None, counts),
            Some(label) => {
                let k = count_of(counts, label);
                (find_in_ranges(c.b, ranges, label, k as nat), put(counts, label, bump(k)))
            },
        }
    }
}

fn occurrence_exec(
    i: &TreeInputs,
    ranges: &Vec<(usize, usize)>,
    operand: &ExprRef,
    counts: &mut Vec<(String, usize)>,
) -> (r: Option<PassDebugSourceRange>)
    ensures
        (r, flow_counts(final(counts)@)) == occurrence(tctx(*i), ranges_view(ranges@), eview(*operand), flow_counts(old(counts)@)),
{
    if ranges.len() == 0 {
        return None;
    }
    let label = match reference_label_for_expr(i.m, i.source, i.targets, operand) {
        Some(l) => l,
        None => {
            return None;
        },
    };
    let k = super::flow::take_count_pub(counts, &label);
    find_in_ranges_exec(i.source, ranges, &label, k)
}

fn find_in_ranges_exec(source: &str, ranges: &Vec<(usize, usize)>, label: &String, k: usize) -> (r: Option<
    PassDebugSourceRange,
>)
    ensures
        r == find_in_ranges(source.spec_bytes(), ranges_view(ranges@), label@, k as nat),
{
    let ghost rv = ranges_view(ranges@);
    assert(rv.skip(0) =~= rv);
    let mut j: usize = 0;
    while j < ranges.len()
        invariant
            j <= ranges@.len(),
            rv == ranges_view(ranges@),
            find_in_ranges(source.spec_bytes(), rv, label@, k as nat) == find_in_ranges(
                source.spec_bytes(),
                rv.skip(j as int),
                label@,
                k as nat,
            ),
        decreases ranges@.len() - j,
    {
        assert(rv.skip(j as int).drop_first() =~= rv.skip(j + 1));
        assert(rv.skip(j as int)[0] == (ranges@[j as int].0 as int, ranges@[j as int].1 as int));
        let range = ranges[j];
        match find_identifier_occurrence_range(
            source,
            core::ops::Range { start: range.0, end: range.1 },
            label.as_str(),
            k,
        ) {
            Some(r) => {
                return Some(r);
            },
            None => {},
        }
        j = j + 1;
    }
    None
}

// ---------------------------------------------------------------------------
// Projections of operands and calls
// ---------------------------------------------------------------------------

/// The components of `p` below `w`, in order.
pub open spec fn below(p: Seq<u32>, w: int) -> Seq<u32>
    decreases p.len(),
{
    if p.len() == 0 {
        seq![]
    } else if (p.last() as int) < w {
        below(p.drop_last(), w).push(p.last())
    } else {
        below(p.drop_last(), w)
    }
}

/// `operand_projection`: the part of `projection` an operand of `current`
/// wider than one component carries.
pub open spec fn operand_projection(
    c: TreeCtx,
    current: (Option<Seq<char>>, usize),
    h: usize,
    projection: Seq<u32>,
) -> Option<Seq<u32>> {
    let w = spec_component_count(c.m, flow_calls(c.flow.calls@), (current.0, h));
    if w <= 1 {
        None
    } else {
        let p = below(projection, w as int);
        if p.len() == 0 {
            None
        } else {
            Some(spec_dedupe(p))
        }
    }
}

fn operand_projection_exec(i: &TreeInputs, current: &ExprRef, h: usize, projection: &Vec<u32>) -> (r: Option<
    Vec<u32>,
>)
    ensures
        opt_indices(r) == operand_projection(tctx(*i), eview(*current), h, projection@),
{
    let operand = super::access::sibling(current, h);
    let w = expression_component_count(i.m, &i.flow.calls, &operand);
    if w <= 1 {
        return None;
    }
    let mut p: Vec<u32> = Vec::new();
    let mut j: usize = 0;
    while j < projection.len()
        invariant
            j <= projection@.len(),
            p@ == below(projection@.take(j as int), w as int),
        decreases projection@.len() - j,
    {
        assert(projection@.take(j + 1).drop_last() =~= projection@.take(j as int));
        if (projection[j] as usize) < w {
            p.push(projection[j]);
        }
        j = j + 1;
    }
    assert(projection@.take(j as int) =~= projection@);
    if p.len() == 0 {
        None
    } else {
        Some(dedupe_projection(p))
    }
}

/// The call whose result is `e`: the callee and its argument expressions.
pub open spec fn call_of(c: TreeCtx, e: (Option<Seq<char>>, usize)) -> Option<super::flow::CallView> {
    match e.0 {
        None => None,
        Some(s) => {
            let t = flow_calls(c.flow.calls@);
            if has_key(t, (s, e.1)) {
                Some(t[first_of(t, (s, e.1))].1)
            } else {
                None
            }
        },
    }
}

fn call_of_exec<'a>(i: &TreeInputs<'a>, e: &ExprRef) -> (r: Option<&'a CallDependency>)
    ensures
        match r {
            Some(call) => call_of(tctx(*i), eview(*e)) == Some(
                super::flow::CallView { function: call.function, arguments: call.arguments@ },
            ),
            None => call_of(tctx(*i), eview(*e)) == None::<super::flow::CallView>,
        },
{
    match &e.scope {
        None => None,
        Some(s) => match super::flow::find_call(&i.flow.calls, s, e.handle) {
            None => None,
            Some(k) => {
                proof {
                    super::flow::lemma_first_unique(
                        keys_of(flow_calls(i.flow.calls@)),
                        (s@, e.handle),
                        k as int,
                        first_of(flow_calls(i.flow.calls@), (s@, e.handle)),
                    );
                }
                Some(&i.flow.calls[k])
            },
        },
    }
}

/// The edge label of a call: the callee's scope, or `call` when the callee
/// is not a function of the module.
pub open spec fn call_edge(c: TreeCtx, function: usize) -> Seq<char> {
    if function < c.m.functions@.len() {
        spec_function_scope(function as nat, c.m.functions@[function as int].name)
    } else {
        "call"@
    }
}

fn call_edge_exec(i: &TreeInputs, function: usize) -> (r: String)
    ensures
        r@ == call_edge(tctx(*i), function),
{
    if function < i.m.functions.len() {
        function_scope(function, &i.m.functions[function].name)
    } else {
        owned("call")
    }
}

// ---------------------------------------------------------------------------
// The trees, as values
// ---------------------------------------------------------------------------
//
// Every function below takes the depth reached, the targets whose trees are
// being built (`stack`; its first element is the root), the expressions
// being expanded (`seen`) and the definitions being expanded (`dstack`).
// `lim` bounds the definition ids that may still be expanded: a definition
// is expanded only below the bound, and its own subtree is bounded by its
// id. Operands are followed only to lower handles, as the front end orders
// them. These bounds, the depth limit and the handles make every chain of
// calls finite.

pub open spec fn topm(stack: Seq<Seq<char>>) -> nat {
    if stack.len() == 0 {
        1
    } else {
        0
    }
}

pub open spec fn dm(depth: nat) -> nat {
    if depth < MAX_DEPENDENCY_DEPTH {
        (MAX_DEPENDENCY_DEPTH - depth) as nat
    } else {
        0
    }
}

pub open spec fn inc(depth: nat) -> nat {
    if depth < usize::MAX {
        depth + 1
    } else {
        depth
    }
}

pub open spec fn arena_rank(e: (Option<Seq<char>>, usize)) -> nat {
    if e.0 is Some {
        1
    } else {
        0
    }
}

pub open spec fn op_edge(edge: Option<Seq<char>>, operation: Seq<char>) -> Option<Seq<char>> {
    match edge {
        Some(x) => Some(x),
        None => Some(operation),
    }
}

pub open spec fn opt_handle(h: Option<usize>) -> Seq<usize> {
    match h {
        Some(x) => seq![x],
        None => seq![],
    }
}

pub open spec fn no_contributors(children: Seq<DepTree>) -> Seq<DepTree> {
    if children.len() == 0 {
        seq![dep_leaf("[source] no contributors"@)]
    } else {
        children
    }
}

/// The indices of the first `k` returns that belong to `scope`, in order.
pub open spec fn return_indices(rs: Seq<ReturnDependency>, scope: Seq<char>, k: int) -> Seq<int>
    decreases k,
{
    if k <= 0 {
        seq![]
    } else if rs[k - 1].scope@ == scope {
        return_indices(rs, scope, k - 1).push(k - 1)
    } else {
        return_indices(rs, scope, k - 1)
    }
}

pub open spec fn scope_returns_of(c: TreeCtx, scope: Seq<char>) -> Seq<int> {
    return_indices(c.flow.returns@, scope, c.flow.returns@.len() as int)
}

/// `build_definition_reference_node`.
pub open spec fn definition_reference(
    c: TreeCtx,
    d: usize,
    edge: Option<Seq<char>>,
    display: Option<Seq<char>>,
    range: Option<PassDebugSourceRange>,
) -> Option<DepTree> {
    if d < c.flow.definitions@.len() {
        let def = c.flow.definitions@[d as int];
        match known_target(c.known, def.target_id@) {
            None => None,
            Some(t) => target_reference(
                c,
                def.target_id@,
                edge,
                Some(definition_display(c, t, def, display, range)),
                range,
                def.source_range,
            ),
        }
    } else {
        None
    }
}

/// `build_target_tree_with_context`: the tree of target `tid`.
pub open spec fn target_tree(
    c: TreeCtx,
    tid: Seq<char>,
    stack: Seq<Seq<char>>,
    depth: nat,
    edge: Option<Seq<char>>,
    display: Option<Seq<char>>,
    range: Option<PassDebugSourceRange>,
    lim: nat,
    ma: nat,
    mh: nat,
) -> DepTree
    decreases topm(stack), lim, dm(depth), ma, mh, 5nat, 0nat,
{
    if should_reference(stack, tid) && target_reference(c, tid, edge, display, range, None) is Some {
        target_reference(c, tid, edge, display, range, None)->0
    } else if depth >= MAX_DEPENDENCY_DEPTH {
        match target_reference(c, tid, edge, display, range, None) {
            Some(r) => r,
            None => dep_target(tid + " [depth limit]"@, tid, seq![]),
        }
    } else if stack.contains(tid) {
        DepTree { edge_label: edge, display_label: display, ..dep_target(tid + " [cycle]"@, tid, seq![]) }
    } else {
        match known_target(c.known, tid) {
            None => dep_leaf("missing target "@ + tid),
            Some(t) => match kind_of(c, t) {
                None => dep_leaf("missing target kind "@ + tid),
                Some(k) => {
                    let inner = stack.push(tid);
                    let children = match k {
                        KindView::Global(h) => global_children(c, h, inner, depth, lim),
                        KindView::Argument(scope, index) => seq![
                            dep_leaf("[source] function argument "@ + scope + "::"@ + spec_decimal(index as nat)),
                        ],
                        KindView::Local(scope, h) => local_children(c, scope, h, tid, inner, depth, lim),
                        KindView::Named(scope, h) => expr_deps(
                            c,
                            (Some(scope), h),
                            None,
                            None,
                            None,
                            inner,
                            seq![],
                            seq![],
                            inc(depth),
                            lim,
                        ),
                        KindView::Return(scope) => return_children(c, scope, inner, inc(depth), lim),
                    };
                    DepTree {
                        edge_label: edge,
                        display_label: display,
                        source_range: range,
                        ..dep_target(node_label(t, display), t.id, no_contributors(children))
                    }
                },
            },
        }
    }
}

/// The contributors of global `h`: its initializer, then the definitions
/// that reach the end of some function body.
pub open spec fn global_children(c: TreeCtx, h: usize, stack: Seq<Seq<char>>, depth: nat, lim: nat) -> Seq<
    DepTree,
>
    decreases topm(stack), lim, dm(depth), 2nat, 0nat, 4nat, 0nat,
{
    let init = if h < c.m.globals@.len() {
        match c.m.globals@[h as int].init {
            Some(i) => expr_deps(c, (None, i), None, None, None, stack, seq![], seq![], inc(depth), lim),
            None => seq![],
        }
    } else {
        seq![]
    };
    init + final_definition_nodes(c, spec_global_id(h as nat), stack, inc(depth), lim)
}

/// The contributors of local `h` of `scope`: the definitions that reach the
/// end of its function, else its initializer.
pub open spec fn local_children(
    c: TreeCtx,
    scope: Seq<char>,
    h: usize,
    tid: Seq<char>,
    stack: Seq<Seq<char>>,
    depth: nat,
    lim: nat,
) -> Seq<DepTree>
    decreases topm(stack), lim, dm(depth), 2nat, 0nat, 4nat, 0nat,
{
    let finals = final_definition_nodes(c, tid, stack, inc(depth), lim);
    if finals.len() > 0 {
        finals
    } else {
        match scope_function(c.m, scope) {
            Some(f) => if h < f.locals@.len() {
                match f.locals@[h as int].init {
                    Some(i) => expr_deps(c, (Some(scope), i), None, None, None, stack, seq![], seq![], inc(depth), lim),
                    None => seq![],
                }
            } else {
                seq![]
            },
            None => seq![],
        }
    }
}

/// `final_definition_nodes_for_target`.
pub open spec fn final_definition_nodes(c: TreeCtx, tid: Seq<char>, stack: Seq<Seq<char>>, depth: nat, lim: nat) -> Seq<
    DepTree,
>
    decreases topm(stack), lim, dm(depth), 2nat, 0nat, 1nat, 0nat,
{
    match env_get(c.finals, tid) {
        None => seq![],
        Some(ds) => final_fold(c, ds, ds.len() as int, stack, depth, lim),
    }
}

pub open spec fn final_fold(c: TreeCtx, ds: Seq<usize>, k: int, stack: Seq<Seq<char>>, depth: nat, lim: nat) -> Seq<
    DepTree,
>
    decreases topm(stack), lim, dm(depth), 2nat, 0nat, 0nat, (if k > 0 { k } else { 0 }) as nat,
{
    if k <= 0 || k > ds.len() {
        seq![]
    } else {
        let d = ds[k - 1];
        let node = if (d as nat) < lim {
            definition_node(c, d, None, None, None, None, true, stack, seq![], seq![], inc(depth), d as nat)
        } else {
            dep_leaf("missing definition "@ + spec_decimal(d as nat))
        };
        final_fold(c, ds, k - 1, stack, depth, lim).push(node)
    }
}

/// `return_target_children`.
pub open spec fn return_children(c: TreeCtx, scope: Seq<char>, stack: Seq<Seq<char>>, depth: nat, lim: nat) -> Seq<
    DepTree,
>
    decreases topm(stack), lim, dm(depth), 2nat, 0nat, 4nat, 0nat,
{
    let idx = scope_returns_of(c, scope);
    if idx.len() == 0 {
        seq![]
    } else if idx.len() == 1 && c.flow.returns@[idx[0]].controls@.len() == 0 {
        let ret = c.flow.returns@[idx[0]];
        match ret.value {
            Some(v) => expr_deps(c, (Some(scope), v), None, None, Some(ret.env), stack, seq![], seq![], inc(depth), lim),
            None => seq![],
        }
    } else {
        return_fold(c, scope, idx, idx.len() as int, stack, depth, lim)
    }
}

pub open spec fn return_fold(
    c: TreeCtx,
    scope: Seq<char>,
    idx: Seq<int>,
    k: int,
    stack: Seq<Seq<char>>,
    depth: nat,
    lim: nat,
) -> Seq<DepTree>
    decreases topm(stack), lim, dm(depth), 2nat, 0nat, 3nat, (if k > 0 { k } else { 0 }) as nat,
{
    if k <= 0 || k > idx.len() {
        seq![]
    } else {
        let i = idx[k - 1];
        let value = if 0 <= i < c.flow.returns@.len() {
            match c.flow.returns@[i].value {
                Some(v) => expr_deps(
                    c,
                    (Some(scope), v),
                    None,
                    None,
                    Some(c.flow.returns@[i].env),
                    stack,
                    seq![],
                    seq![],
                    inc(depth),
                    lim,
                ),
                None => seq![],
            }
        } else {
            seq![]
        };
        let controls = if 0 <= i < c.flow.returns@.len() {
            control_nodes(
                c,
                scope,
                c.flow.returns@[i].controls@,
                c.flow.returns@[i].controls@.len() as int,
                stack,
                inc(depth),
                lim,
            )
        } else {
            seq![]
        };
        return_fold(c, scope, idx, k - 1, stack, depth, lim).push(
            dep_branch("[return "@ + spec_decimal((k - 1) as nat) + "] "@ + scope, controls + value),
        )
    }
}

/// `control_nodes`: one node per governing condition, the first `k`.
pub open spec fn control_nodes(
    c: TreeCtx,
    scope: Seq<char>,
    controls: Seq<ControlDependency>,
    k: int,
    stack: Seq<Seq<char>>,
    depth: nat,
    lim: nat,
) -> Seq<DepTree>
    decreases topm(stack), lim, dm(depth), 2nat, 0nat, 2nat, (if k > 0 { k } else { 0 }) as nat,
{
    if k <= 0 || k > controls.len() {
        seq![]
    } else {
        let ctl = controls[k - 1];
        control_nodes(c, scope, controls, k - 1, stack, depth, lim).push(
            relation_node(c, (Some(scope), ctl.expr), ctl.label@, ctl.env, stack, inc(depth), lim),
        )
    }
}

/// `semantic_relation_node`: a condition and what it depends on.
pub open spec fn relation_node(
    c: TreeCtx,
    e: (Option<Seq<char>>, usize),
    label: Seq<char>,
    env: DefinitionEnv,
    stack: Seq<Seq<char>>,
    depth: nat,
    lim: nat,
) -> DepTree
    decreases topm(stack), lim, dm(depth), 2nat, 0nat, 1nat, 0nat,
{
    let children = expr_deps(c, e, None, None, Some(env), stack, seq![], seq![], inc(depth), lim);
    if children.len() == 0 {
        dep_leaf(label + " [no variable dependencies]"@)
    } else {
        dep_branch(label, children)
    }
}

/// `definition_nodes_for_target`: the definitions of `tid` that `env`
/// lets reach, as nodes; `None` without an environment or an entry.
pub open spec fn definition_nodes(
    c: TreeCtx,
    tid: Seq<char>,
    edge: Option<Seq<char>>,
    display: Option<Seq<char>>,
    range: Option<PassDebugSourceRange>,
    projection: Option<Seq<u32>>,
    env: Option<DefinitionEnv>,
    stack: Seq<Seq<char>>,
    seen: Seq<(Option<Seq<char>>, usize)>,
    dstack: Seq<usize>,
    depth: nat,
    lim: nat,
    ma: nat,
    mh: nat,
) -> Option<Seq<DepTree>>
    decreases topm(stack), lim, dm(depth), ma, mh, 1nat, 0nat,
{
    match env {
        None => None,
        Some(v) => match env_get(v, tid) {
            None => None,
            Some(ds) => Some(
                definition_fold(c, tid, edge, display, range, projection, ds, ds.len() as int, stack, seen, dstack, depth, lim, ma, mh),
            ),
        },
    }
}

pub open spec fn definition_fold(
    c: TreeCtx,
    tid: Seq<char>,
    edge: Option<Seq<char>>,
    display: Option<Seq<char>>,
    range: Option<PassDebugSourceRange>,
    projection: Option<Seq<u32>>,
    ds: Seq<usize>,
    k: int,
    stack: Seq<Seq<char>>,
    seen: Seq<(Option<Seq<char>>, usize)>,
    dstack: Seq<usize>,
    depth: nat,
    lim: nat,
    ma: nat,
    mh: nat,
) -> Seq<DepTree>
    decreases topm(stack), lim, dm(depth), ma, mh, 0nat, (if k > 0 { k } else { 0 }) as nat,
{
    if k <= 0 || k > ds.len() {
        seq![]
    } else {
        let d = ds[k - 1];
        let d_depth = if is_root(stack, tid) {
            1nat
        } else {
            inc(depth)
        };
        let node = if should_reference(stack, tid) && definition_reference(c, d, edge, display, range) is Some {
            definition_reference(c, d, edge, display, range)->0
        } else if (d as nat) < lim {
            definition_node(c, d, edge, display, range, projection, false, stack, seen, dstack, d_depth, d as nat)
        } else {
            dep_leaf("missing definition "@ + spec_decimal(d as nat))
        };
        definition_fold(c, tid, edge, display, range, projection, ds, k - 1, stack, seen, dstack, depth, lim, ma, mh).push(node)
    }
}

/// `build_definition_node`: definition `d`, with the conditions that
/// govern it and what its value depends on. `lim` is `d` itself.
pub open spec fn definition_node(
    c: TreeCtx,
    d: usize,
    edge: Option<Seq<char>>,
    display: Option<Seq<char>>,
    range: Option<PassDebugSourceRange>,
    projection: Option<Seq<u32>>,
    is_occurrence: bool,
    stack: Seq<Seq<char>>,
    seen: Seq<(Option<Seq<char>>, usize)>,
    dstack: Seq<usize>,
    depth: nat,
    lim: nat,
) -> DepTree
    decreases topm(stack), lim, dm(depth), 2nat, 0nat, 5nat, 0nat,
{
    if d >= c.flow.definitions@.len() {
        dep_leaf("missing definition "@ + spec_decimal(d as nat))
    } else {
        let def = c.flow.definitions@[d as int];
        match known_target(c.known, def.target_id@) {
            None => dep_leaf("missing target "@ + def.target_id@),
            Some(t) => {
                let node_range = if is_occurrence {
                    or_range(range, def.source_range)
                } else {
                    range
                };
                let disp = definition_display(c, t, def, display, node_range);
                let ddr = distinct_range(def.source_range, node_range);
                if should_reference(stack, def.target_id@) {
                    match target_reference(c, def.target_id@, edge, Some(disp), node_range, def.source_range) {
                        Some(r) => r,
                        None => dep_target(t.label, t.id, seq![]),
                    }
                } else if depth >= MAX_DEPENDENCY_DEPTH {
                    match target_reference(c, t.id, edge, Some(disp), node_range, def.source_range) {
                        Some(r) => DepTree { definition_source_range: ddr, ..r },
                        None => DepTree {
                            edge_label: edge,
                            display_label: Some(disp),
                            source_range: node_range,
                            definition_source_range: ddr,
                            ..dep_target(t.label + " [depth limit]"@, t.id, seq![])
                        },
                    }
                } else if dstack.contains(d) {
                    DepTree {
                        edge_label: edge,
                        display_label: display,
                        source_range: node_range,
                        definition_source_range: ddr,
                        ..dep_target(t.label + " [cycle]"@, t.id, seq![])
                    }
                } else {
                    let inner = dstack.push(d);
                    let controls = control_nodes(
                        c,
                        def.scope@,
                        def.controls@,
                        def.controls@.len() as int,
                        stack,
                        inc(depth),
                        lim,
                    );
                    let value = match def.value {
                        Some(v) => {
                            let vr = (Some(def.scope@), v);
                            let vocc = match def.source_range {
                                Some(sr) => value_occurrence_range(c.m, c.b, c.known, sr, vr),
                                None => None,
                            };
                            if projection is Some && projection->0.len() > 0 {
                                projected_deps(c, vr, None, vocc, projection->0, Some(def.env), stack, seen, inner, inc(depth), lim)
                            } else {
                                expr_deps(c, vr, None, vocc, Some(def.env), stack, seen, inner, inc(depth), lim)
                            }
                        },
                        None => seq![],
                    };
                    DepTree {
                        edge_label: edge,
                        display_label: Some(disp),
                        source_range: node_range,
                        definition_source_range: ddr,
                        ..dep_target(node_label(t, Some(disp)), t.id, no_contributors(controls + value))
                    }
                }
            },
        }
    }
}

/// `build_named_expression_tree_with_context`.
pub open spec fn named_tree(
    c: TreeCtx,
    tid: Seq<char>,
    e: (Option<Seq<char>>, usize),
    env: Option<DefinitionEnv>,
    stack: Seq<Seq<char>>,
    depth: nat,
    edge: Option<Seq<char>>,
    display: Option<Seq<char>>,
    range: Option<PassDebugSourceRange>,
    seen: Seq<(Option<Seq<char>>, usize)>,
    dstack: Seq<usize>,
    lim: nat,
) -> DepTree
    decreases topm(stack), lim, dm(depth), arena_rank(e), e.1 as nat, 2nat, 0nat,
{
    if should_reference(stack, tid) && target_reference(c, tid, edge, display, range, None) is Some {
        target_reference(c, tid, edge, display, range, None)->0
    } else if depth >= MAX_DEPENDENCY_DEPTH {
        match target_reference(c, tid, edge, display, range, None) {
            Some(r) => r,
            None => dep_target(tid + " [depth limit]"@, tid, seq![]),
        }
    } else if stack.contains(tid) {
        DepTree {
            edge_label: edge,
            display_label: display,
            source_range: range,
            ..dep_target(tid + " [cycle]"@, tid, seq![])
        }
    } else {
        match known_target(c.known, tid) {
            None => dep_leaf("missing target "@ + tid),
            Some(t) => {
                let children = expr_deps(c, e, None, None, env, stack.push(tid), seen, dstack, inc(depth), lim);
                DepTree {
                    edge_label: edge,
                    display_label: display,
                    source_range: range,
                    ..dep_target(node_label(t, display), t.id, no_contributors(children))
                }
            },
        }
    }
}

/// `semantic_expr_dependencies_with_hint`: what expression `e` depends on.
pub open spec fn expr_deps(
    c: TreeCtx,
    e: (Option<Seq<char>>, usize),
    edge: Option<Seq<char>>,
    occ: Option<PassDebugSourceRange>,
    env: Option<DefinitionEnv>,
    stack: Seq<Seq<char>>,
    seen: Seq<(Option<Seq<char>>, usize)>,
    dstack: Seq<usize>,
    depth: nat,
    lim: nat,
) -> Seq<DepTree>
    decreases topm(stack), lim, dm(depth), arena_rank(e), e.1 as nat, 8nat, 0nat,
{
    let eff = effective_env(c, env, e);
    let named = named_target(c.m, e);
    if named is Some && !stack.contains(named->0) {
        seq![named_tree(c, named->0, e, eff, stack, inc(depth), edge, None, occ, seen, dstack, lim)]
    } else {
        match spec_access_path(c.m, c.b, c.known, e, stack) {
            Some(ap) => {
                let range = or_range(occ, ap.source_range);
                let first = match definition_nodes(
                    c,
                    ap.target_id,
                    edge,
                    Some(ap.display_label),
                    range,
                    ap.projection,
                    eff,
                    stack,
                    seen,
                    dstack,
                    inc(depth),
                    lim,
                    arena_rank(e),
                    e.1 as nat,
                ) {
                    Some(ns) => ns,
                    None => seq![
                        target_tree(c, ap.target_id, stack, inc(depth), edge, Some(ap.display_label), range, lim, arena_rank(e), e.1 as nat),
                    ],
                };
                first + index_deps(c, e, edge, eff, stack, seen, dstack, inc(depth), lim)
            },
            None => if depth >= MAX_DEPENDENCY_DEPTH {
                seq![dep_leaf("[depth limit]"@)]
            } else if seen.contains(e) {
                seq![]
            } else {
                match expr_at(c.m, e) {
                    None => seq![],
                    Some(x) => expr_children(c, e, x, edge, eff, stack, seen.push(e), dstack, inc(depth), lim),
                }
            },
        }
    }
}

/// `access_path_index_dependencies`: what the indices along an access
/// chain depend on.
pub open spec fn index_deps(
    c: TreeCtx,
    e: (Option<Seq<char>>, usize),
    edge: Option<Seq<char>>,
    env: Option<DefinitionEnv>,
    stack: Seq<Seq<char>>,
    seen: Seq<(Option<Seq<char>>, usize)>,
    dstack: Seq<usize>,
    depth: nat,
    lim: nat,
) -> Seq<DepTree>
    decreases topm(stack), lim, dm(depth), arena_rank(e), e.1 as nat, 3nat, 0nat,
{
    match expr_at(c.m, e) {
        None => seq![],
        Some(x) => match x.kind {
            IrExprKind::Operands { op } => match op {
                IrExprOp::Load { pointer } => if pointer < e.1 {
                    index_deps(c, (e.0, pointer), edge, env, stack, seen, dstack, inc(depth), lim)
                } else {
                    seq![]
                },
                IrExprOp::Access { base, index } => {
                    let b = if base < e.1 {
                        index_deps(c, (e.0, base), edge, env, stack, seen, dstack, inc(depth), lim)
                    } else {
                        seq![]
                    };
                    let i = if index < e.1 {
                        expr_deps(c, (e.0, index), edge, None, env, stack, seen, dstack, inc(depth), lim)
                    } else {
                        seq![]
                    };
                    b + i
                },
                IrExprOp::AccessIndex { base, .. } => if base < e.1 {
                    index_deps(c, (e.0, base), edge, env, stack, seen, dstack, inc(depth), lim)
                } else {
                    seq![]
                },
                _ => seq![],
            },
            IrExprKind::Swizzle { vector, .. } => if vector < e.1 {
                index_deps(c, (e.0, vector), edge, env, stack, seen, dstack, inc(depth), lim)
            } else {
                seq![]
            },
            _ => seq![],
        },
    }
}

/// `semantic_expression_children`: what the operands of `x` depend on.
pub open spec fn expr_children(
    c: TreeCtx,
    e: (Option<Seq<char>>, usize),
    x: IrExpression,
    edge: Option<Seq<char>>,
    env: Option<DefinitionEnv>,
    stack: Seq<Seq<char>>,
    seen: Seq<(Option<Seq<char>>, usize)>,
    dstack: Seq<usize>,
    depth: nat,
    lim: nat,
) -> Seq<DepTree>
    decreases topm(stack), lim, dm(depth), arena_rank(e), e.1 as nat, 7nat, 0nat,
{
    let ranges = search_ranges(c, e);
    let d1 = inc(depth);
    match x.kind {
        IrExprKind::Leaf { leaf, .. } => match leaf {
            IrExprLeaf::Constant(h) => if h < c.m.constants@.len() {
                let init = c.m.constants@[h as int].init;
                if e.0 is Some || init < e.1 {
                    expr_deps(c, (None, init), edge, None, env, stack, seen, dstack, d1, lim)
                } else {
                    seq![]
                }
            } else {
                seq![]
            },
            IrExprLeaf::Override(h) => if h < c.m.overrides@.len() {
                match c.m.overrides@[h as int].init {
                    Some(init) => if e.0 is Some || init < e.1 {
                        expr_deps(c, (None, init), edge, None, env, stack, seen, dstack, d1, lim)
                    } else {
                        seq![]
                    },
                    None => seq![],
                }
            } else {
                seq![]
            },
            IrExprLeaf::FunctionArgument(i) => seq![
                target_tree(c, spec_scoped_id(super::access::scope_of(e), "arg"@, i as nat), stack, d1, edge, None, None, lim, arena_rank(e), e.1 as nat),
            ],
            IrExprLeaf::GlobalVariable(g) => seq![
                target_tree(c, spec_global_id(g as nat), stack, d1, edge, None, None, lim, arena_rank(e), e.1 as nat),
            ],
            IrExprLeaf::LocalVariable(l) => seq![
                target_tree(c, spec_scoped_id(super::access::scope_of(e), "local"@, l as nat), stack, d1, edge, None, None, lim, arena_rank(e), e.1 as nat),
            ],
            IrExprLeaf::CallResult(_) => match call_of(c, e) {
                Some(call) => operand_deps(c, e, call.arguments, 0, ranges, seq![], Some(call_edge(c, call.function)), env, stack, seen, dstack, d1, lim),
                None => seq![],
            },
            IrExprLeaf::ArrayLength(h) => operand_deps(c, e, seq![h], 0, ranges, seq![], op_edge(edge, "arrayLength"@), env, stack, seen, dstack, d1, lim),
            _ => seq![],
        },
        IrExprKind::Compose { components, .. } => operand_deps(c, e, components@, 0, ranges, seq![], op_edge(edge, "Compose"@), env, stack, seen, dstack, d1, lim),
        IrExprKind::Swizzle { vector, .. } => operand_deps(c, e, seq![vector], 0, ranges, seq![], op_edge(edge, "Swizzle"@), env, stack, seen, dstack, d1, lim),
        IrExprKind::Operands { op } => match op {
            IrExprOp::Access { base, index } => operand_deps(c, e, seq![base, index], 0, ranges, seq![], op_edge(edge, "Access"@), env, stack, seen, dstack, d1, lim),
            IrExprOp::AccessIndex { base, .. } => operand_deps(c, e, seq![base], 0, ranges, seq![], op_edge(edge, "Access"@), env, stack, seen, dstack, d1, lim),
            IrExprOp::Splat { value, .. } => operand_deps(c, e, seq![value], 0, ranges, seq![], op_edge(edge, "Splat"@), env, stack, seen, dstack, d1, lim),
            IrExprOp::Load { pointer } => operand_deps(c, e, seq![pointer], 0, ranges, seq![], edge, env, stack, seen, dstack, d1, lim),
            IrExprOp::ImageSample { image, sampler, coordinate, array_index, offset, depth_ref, .. } => operand_deps(
                c,
                e,
                seq![image, sampler, coordinate] + opt_handle(array_index) + opt_handle(offset) + opt_handle(depth_ref),
                0,
                ranges,
                seq![],
                Some("textureSample"@),
                env,
                stack,
                seen,
                dstack,
                d1,
                lim,
            ),
            IrExprOp::ImageLoad { image, coordinate, array_index, sample, level } => operand_deps(
                c,
                e,
                seq![image, coordinate] + opt_handle(array_index) + opt_handle(sample) + opt_handle(level),
                0,
                ranges,
                seq![],
                Some("textureLoad"@),
                env,
                stack,
                seen,
                dstack,
                d1,
                lim,
            ),
            IrExprOp::ImageQuery { image, .. } => operand_deps(c, e, seq![image], 0, ranges, seq![], Some("textureQuery"@), env, stack, seen, dstack, d1, lim),
            IrExprOp::Unary { op, expr } => operand_deps(c, e, seq![expr], 0, ranges, seq![], op_edge(edge, op@), env, stack, seen, dstack, d1, lim),
            IrExprOp::Binary { op, left, right } => operand_deps(c, e, seq![left, right], 0, ranges, seq![], op_edge(edge, op@), env, stack, seen, dstack, d1, lim),
            IrExprOp::Select { condition, accept, reject } => operand_deps(c, e, seq![condition, accept, reject], 0, ranges, seq![], op_edge(edge, "Select"@), env, stack, seen, dstack, d1, lim),
            IrExprOp::Derivative { axis, ctrl, expr } => operand_deps(c, e, seq![expr], 0, ranges, seq![], op_edge(edge, axis@ + "/"@ + ctrl@), env, stack, seen, dstack, d1, lim),
            IrExprOp::Relational { fun, argument } => operand_deps(c, e, seq![argument], 0, ranges, seq![], op_edge(edge, fun@), env, stack, seen, dstack, d1, lim),
            IrExprOp::Math { fun, arg, arg1, arg2, arg3 } => operand_deps(
                c,
                e,
                seq![arg] + opt_handle(arg1) + opt_handle(arg2) + opt_handle(arg3),
                0,
                ranges,
                seq![],
                op_edge(edge, fun@),
                env,
                stack,
                seen,
                dstack,
                d1,
                lim,
            ),
            IrExprOp::As { expr, .. } => operand_deps(c, e, seq![expr], 0, ranges, seq![], op_edge(edge, "As"@), env, stack, seen, dstack, d1, lim),
            IrExprOp::RayQueryGetIntersection { query, .. } => operand_deps(c, e, seq![query], 0, ranges, seq![], op_edge(edge, "rayQueryGetIntersection"@), env, stack, seen, dstack, d1, lim),
        },
    }
}

/// `semantic_operand_dependencies`: the operands of `current` from the
/// `j`-th on, each with where it is written.
pub open spec fn operand_deps(
    c: TreeCtx,
    current: (Option<Seq<char>>, usize),
    ops: Seq<usize>,
    j: int,
    ranges: Seq<(int, int)>,
    counts: Seq<(Seq<char>, usize)>,
    edge: Option<Seq<char>>,
    env: Option<DefinitionEnv>,
    stack: Seq<Seq<char>>,
    seen: Seq<(Option<Seq<char>>, usize)>,
    dstack: Seq<usize>,
    depth: nat,
    lim: nat,
) -> Seq<DepTree>
    decreases topm(stack), lim, dm(depth), arena_rank(current), current.1 as nat, 6nat, (if 0 <= j < ops.len() { ops.len() - j } else { 0 }) as nat,
{
    if j < 0 || j >= ops.len() {
        seq![]
    } else {
        let h = ops[j];
        let o = occurrence(c, ranges, (current.0, h), counts);
        let deps = if h < current.1 {
            expr_deps(c, (current.0, h), edge, o.0, env, stack, seen, dstack, inc(depth), lim)
        } else {
            seq![]
        };
        deps + operand_deps(c, current, ops, j + 1, ranges, o.1, edge, env, stack, seen, dstack, depth, lim)
    }
}

/// `semantic_expr_dependencies_projected`: what the components
/// `projection` of expression `e` depend on.
pub open spec fn projected_deps(
    c: TreeCtx,
    e: (Option<Seq<char>>, usize),
    edge: Option<Seq<char>>,
    occ: Option<PassDebugSourceRange>,
    projection: Seq<u32>,
    env: Option<DefinitionEnv>,
    stack: Seq<Seq<char>>,
    seen: Seq<(Option<Seq<char>>, usize)>,
    dstack: Seq<usize>,
    depth: nat,
    lim: nat,
) -> Seq<DepTree>
    decreases topm(stack), lim, dm(depth), arena_rank(e), e.1 as nat, 10nat, 0nat,
{
    if projection.len() == 0 {
        seq![]
    } else {
        let eff = effective_env(c, env, e);
        match spec_access_path(c.m, c.b, c.known, e, stack) {
            Some(ap) => {
                let tp = spec_combine_access_projection(ap.projection, projection);
                if tp.len() == 0 {
                    seq![]
                } else {
                    let range = or_range(occ, ap.source_range);
                    let first = match definition_nodes(
                        c,
                        ap.target_id,
                        edge,
                        Some(ap.display_label),
                        range,
                        Some(tp),
                        eff,
                        stack,
                        seen,
                        dstack,
                        inc(depth),
                        lim,
                        arena_rank(e),
                        e.1 as nat,
                    ) {
                        Some(ns) => ns,
                        None => seq![
                            target_tree(c, ap.target_id, stack, inc(depth), edge, Some(ap.display_label), range, lim, arena_rank(e), e.1 as nat),
                        ],
                    };
                    first + index_deps(c, e, edge, eff, stack, seen, dstack, inc(depth), lim)
                }
            },
            None => if named_target(c.m, e) is Some {
                expr_deps(c, e, edge, occ, env, stack, seen, dstack, inc(depth), lim)
            } else if depth >= MAX_DEPENDENCY_DEPTH {
                seq![dep_leaf("[depth limit]"@)]
            } else if seen.contains(e) {
                seq![]
            } else {
                match expr_at(c.m, e) {
                    None => seq![],
                    Some(x) => projected_children(c, e, x, edge, occ, projection, env, eff, stack, seen.push(e), dstack, inc(depth), lim),
                }
            },
        }
    }
}

pub open spec fn opt_pair(
    c: TreeCtx,
    current: (Option<Seq<char>>, usize),
    h: Option<usize>,
    projection: Seq<u32>,
) -> Seq<(usize, Option<Seq<u32>>)> {
    match h {
        Some(x) => seq![(x, operand_projection(c, current, x, projection))],
        None => seq![],
    }
}

/// The arguments of a call, each with the part of `projection` it carries.
pub open spec fn projected_arguments(
    c: TreeCtx,
    current: (Option<Seq<char>>, usize),
    args: Seq<usize>,
    projection: Seq<u32>,
) -> Seq<(usize, Option<Seq<u32>>)> {
    Seq::new(args.len(), |i: int| (args[i], operand_projection(c, current, args[i], projection)))
}

/// The operations `semantic_expr_dependencies_projected` looks into.
pub open spec fn projected_children(
    c: TreeCtx,
    e: (Option<Seq<char>>, usize),
    x: IrExpression,
    edge: Option<Seq<char>>,
    occ: Option<PassDebugSourceRange>,
    projection: Seq<u32>,
    env: Option<DefinitionEnv>,
    eff: Option<DefinitionEnv>,
    stack: Seq<Seq<char>>,
    seen: Seq<(Option<Seq<char>>, usize)>,
    dstack: Seq<usize>,
    depth: nat,
    lim: nat,
) -> Seq<DepTree>
    decreases topm(stack), lim, dm(depth), arena_rank(e), e.1 as nat, 9nat, 0nat,
{
    let ranges = search_ranges(c, e);
    match x.kind {
        IrExprKind::Compose { components, .. } => compose_deps(
            c,
            e,
            components@,
            0,
            0,
            ranges,
            seq![],
            op_edge(edge, "Compose"@),
            projection,
            eff,
            stack,
            seen,
            dstack,
            depth,
            lim,
        ),
        IrExprKind::Operands { op } => match op {
            IrExprOp::Splat { value, .. } => projected_operand_deps(c, e, seq![(value, None)], 0, ranges, seq![], op_edge(edge, "Splat"@), eff, stack, seen, dstack, depth, lim),
            IrExprOp::Binary { op, left, right } => projected_operand_deps(
                c,
                e,
                seq![(left, operand_projection(c, e, left, projection)), (right, operand_projection(c, e, right, projection))],
                0,
                ranges,
                seq![],
                op_edge(edge, op@),
                eff,
                stack,
                seen,
                dstack,
                depth,
                lim,
            ),
            IrExprOp::Unary { op, expr } => projected_operand_deps(c, e, seq![(expr, Some(projection))], 0, ranges, seq![], op_edge(edge, op@), eff, stack, seen, dstack, depth, lim),
            IrExprOp::As { expr, .. } => projected_operand_deps(c, e, seq![(expr, Some(projection))], 0, ranges, seq![], op_edge(edge, "As"@), eff, stack, seen, dstack, depth, lim),
            IrExprOp::Derivative { axis, ctrl, expr } => projected_operand_deps(
                c,
                e,
                seq![(expr, Some(projection))],
                0,
                ranges,
                seq![],
                op_edge(edge, axis@ + "/"@ + ctrl@),
                eff,
                stack,
                seen,
                dstack,
                depth,
                lim,
            ),
            IrExprOp::Math { fun, arg, arg1, arg2, arg3 } => projected_operand_deps(
                c,
                e,
                seq![(arg, operand_projection(c, e, arg, projection))] + opt_pair(c, e, arg1, projection) + opt_pair(c, e, arg2, projection)
                    + opt_pair(c, e, arg3, projection),
                0,
                ranges,
                seq![],
                op_edge(edge, fun@),
                eff,
                stack,
                seen,
                dstack,
                depth,
                lim,
            ),
            IrExprOp::Select { condition, accept, reject } => projected_operand_deps(
                c,
                e,
                seq![(condition, None)],
                0,
                ranges,
                seq![],
                op_edge(edge, "Select"@),
                eff,
                stack,
                seen,
                dstack,
                depth,
                lim,
            ) + projected_operand_deps(
                c,
                e,
                seq![(accept, operand_projection(c, e, accept, projection)), (reject, operand_projection(c, e, reject, projection))],
                0,
                ranges,
                seq![],
                op_edge(edge, "Select"@),
                eff,
                stack,
                seen,
                dstack,
                depth,
                lim,
            ),
            _ => expr_deps(c, e, edge, occ, env, stack, seen, dstack, depth, lim),
        },
        IrExprKind::Leaf { leaf: IrExprLeaf::CallResult(_), .. } => match call_of(c, e) {
            Some(call) => projected_operand_deps(
                c,
                e,
                projected_arguments(c, e, call.arguments, projection),
                0,
                ranges,
                seq![],
                op_edge(edge, call_edge(c, call.function)),
                eff,
                stack,
                seen,
                dstack,
                depth,
                lim,
            ),
            None => seq![],
        },
        _ => expr_deps(c, e, edge, occ, env, stack, seen, dstack, depth, lim),
    }
}

/// The components of `p` in `[off, off + w)`, shifted down by `off`.
pub open spec fn select_in(p: Seq<u32>, off: int, w: int) -> Seq<u32>
    decreases p.len(),
{
    if p.len() == 0 {
        seq![]
    } else if off <= (p.last() as int) < off + w {
        select_in(p.drop_last(), off, w).push((p.last() - off) as u32)
    } else {
        select_in(p.drop_last(), off, w)
    }
}

/// The width a composite component takes: its component count, at least one.
pub open spec fn component_width(c: TreeCtx, o: (Option<Seq<char>>, usize)) -> int {
    let w = spec_component_count(c.m, flow_calls(c.flow.calls@), o);
    ((if w < 1 { 1 } else { w }) as u32) as int
}

/// `projected_compose_dependencies`: the components of a composite from the
/// `j`-th on, starting at output component `offset`, each followed with the
/// part of `projection` it produces.
pub open spec fn compose_deps(
    c: TreeCtx,
    current: (Option<Seq<char>>, usize),
    comps: Seq<usize>,
    j: int,
    offset: int,
    ranges: Seq<(int, int)>,
    counts: Seq<(Seq<char>, usize)>,
    edge: Option<Seq<char>>,
    projection: Seq<u32>,
    env: Option<DefinitionEnv>,
    stack: Seq<Seq<char>>,
    seen: Seq<(Option<Seq<char>>, usize)>,
    dstack: Seq<usize>,
    depth: nat,
    lim: nat,
) -> Seq<DepTree>
    decreases topm(stack), lim, dm(depth), arena_rank(current), current.1 as nat, 6nat, (if 0 <= j < comps.len() { comps.len() - j } else { 0 }) as nat,
{
    if j < 0 || j >= comps.len() {
        seq![]
    } else {
        let h = comps[j];
        let o = (current.0, h);
        let width = component_width(c, o);
        let sel = select_in(projection, offset, width);
        if sel.len() == 0 {
            compose_deps(c, current, comps, j + 1, offset + width, ranges, counts, edge, projection, env, stack, seen, dstack, depth, lim)
        } else {
            let oc = occurrence(c, ranges, o, counts);
            let deps = if h < current.1 {
                if width > 1 && sel.len() < width {
                    projected_deps(c, o, edge, oc.0, spec_dedupe(sel), env, stack, seen, dstack, inc(depth), lim)
                } else {
                    expr_deps(c, o, edge, oc.0, env, stack, seen, dstack, inc(depth), lim)
                }
            } else {
                seq![]
            };
            deps + compose_deps(c, current, comps, j + 1, offset + width, ranges, oc.1, edge, projection, env, stack, seen, dstack, depth, lim)
        }
    }
}

/// `projected_operand_dependencies`: the operands of `current` from the
/// `j`-th on, each followed with its projection when it has a nonempty one.
pub open spec fn projected_operand_deps(
    c: TreeCtx,
    current: (Option<Seq<char>>, usize),
    ops: Seq<(usize, Option<Seq<u32>>)>,
    j: int,
    ranges: Seq<(int, int)>,
    counts: Seq<(Seq<char>, usize)>,
    edge: Option<Seq<char>>,
    env: Option<DefinitionEnv>,
    stack: Seq<Seq<char>>,
    seen: Seq<(Option<Seq<char>>, usize)>,
    dstack: Seq<usize>,
    depth: nat,
    lim: nat,
) -> Seq<DepTree>
    decreases topm(stack), lim, dm(depth), arena_rank(current), current.1 as nat, 6nat, (if 0 <= j < ops.len() { ops.len() - j } else { 0 }) as nat,
{
    if j < 0 || j >= ops.len() {
        seq![]
    } else {
        let h = ops[j].0;
        let o = (current.0, h);
        let oc = occurrence(c, ranges, o, counts);
        let deps = if h < current.1 {
            match ops[j].1 {
                Some(p) => if p.len() > 0 {
                    projected_deps(c, o, edge, oc.0, p, env, stack, seen, dstack, inc(depth), lim)
                } else {
                    expr_deps(c, o, edge, oc.0, env, stack, seen, dstack, inc(depth), lim)
                },
                None => expr_deps(c, o, edge, oc.0, env, stack, seen, dstack, inc(depth), lim),
            }
        } else {
            seq![]
        };
        deps + projected_operand_deps(c, current, ops, j + 1, ranges, oc.1, edge, env, stack, seen, dstack, depth, lim)
    }
}

// ---------------------------------------------------------------------------
// Executable utilities
// ---------------------------------------------------------------------------

pub open spec fn seen_view(v: Seq<ExprRef>) -> Seq<(Option<Seq<char>>, usize)> {
    v.map_values(|e: ExprRef| eview(e))
}

fn clone_opt(o: &Option<String>) -> (r: Option<String>)
    ensures
        opt_string(r) == opt_string(*o),
{
    match o {
        Some(x) => Some(x.clone()),
        None => None,
    }
}

fn copy_ref(e: &ExprRef) -> (r: ExprRef)
    ensures
        eview(r) == eview(*e),
{
    ExprRef { scope: clone_opt(&e.scope), handle: e.handle }
}

fn copy_strings(v: &Vec<String>) -> (r: Vec<String>)
    ensures
        strings_view(r@) == strings_view(v@),
{
    let mut out: Vec<String> = Vec::new();
    let mut k: usize = 0;
    while k < v.len()
        invariant
            k <= v@.len(),
            strings_view(out@) == strings_view(v@).take(k as int),
        decreases v@.len() - k,
    {
        let ghost before = out@;
        out.push(v[k].clone());
        assert(strings_view(out@) =~= strings_view(before).push(v@[k as int]@));
        assert(strings_view(v@).take(k + 1) =~= strings_view(v@).take(k as int).push(v@[k as int]@));
        k = k + 1;
    }
    assert(strings_view(v@).take(k as int) =~= strings_view(v@));
    out
}

fn push_string(v: &Vec<String>, x: &String) -> (r: Vec<String>)
    ensures
        strings_view(r@) == strings_view(v@).push(x@),
{
    let mut out = copy_strings(v);
    let ghost before = out@;
    out.push(x.clone());
    assert(strings_view(out@) =~= strings_view(before).push(x@));
    out
}

fn push_ref(v: &Vec<ExprRef>, e: &ExprRef) -> (r: Vec<ExprRef>)
    ensures
        seen_view(r@) == seen_view(v@).push(eview(*e)),
{
    let mut out: Vec<ExprRef> = Vec::new();
    let mut k: usize = 0;
    while k < v.len()
        invariant
            k <= v@.len(),
            seen_view(out@) == seen_view(v@).take(k as int),
        decreases v@.len() - k,
    {
        let ghost before = out@;
        let x = copy_ref(&v[k]);
        out.push(x);
        assert(seen_view(out@) =~= seen_view(before).push(eview(v@[k as int])));
        assert(seen_view(v@).take(k + 1) =~= seen_view(v@).take(k as int).push(eview(v@[k as int])));
        k = k + 1;
    }
    assert(seen_view(v@).take(k as int) =~= seen_view(v@));
    let ghost before = out@;
    out.push(copy_ref(e));
    assert(seen_view(out@) =~= seen_view(before).push(eview(*e)));
    out
}

fn push_index(v: &Vec<usize>, d: usize) -> (r: Vec<usize>)
    ensures
        r@ == v@.push(d),
{
    let mut out: Vec<usize> = Vec::new();
    let mut k: usize = 0;
    while k < v.len()
        invariant
            k <= v@.len(),
            out@ == v@.take(k as int),
        decreases v@.len() - k,
    {
        out.push(v[k]);
        assert(v@.take(k + 1) =~= v@.take(k as int).push(v@[k as int]));
        k = k + 1;
    }
    assert(v@.take(k as int) =~= v@);
    out.push(d);
    out
}

fn contains_ref(v: &Vec<ExprRef>, e: &ExprRef) -> (r: bool)
    ensures
        r == seen_view(v@).contains(eview(*e)),
{
    let mut k: usize = 0;
    while k < v.len()
        invariant
            k <= v@.len(),
            forall|j: int| 0 <= j < k ==> eview(v@[j]) != eview(*e),
        decreases v@.len() - k,
    {
        let same_scope = match (&v[k].scope, &e.scope) {
            (Some(a), Some(b)) => *a == *b,
            (None, None) => true,
            _ => false,
        };
        if same_scope && v[k].handle == e.handle {
            assert(seen_view(v@)[k as int] == eview(*e));
            return true;
        }
        k = k + 1;
    }
    proof {
        if seen_view(v@).contains(eview(*e)) {
            let j = choose|j: int| 0 <= j < seen_view(v@).len() && seen_view(v@)[j] == eview(*e);
            assert(eview(v@[j]) == eview(*e));
        }
    }
    false
}

fn contains_index(v: &Vec<usize>, d: usize) -> (r: bool)
    ensures
        r == v@.contains(d),
{
    let mut k: usize = 0;
    while k < v.len()
        invariant
            k <= v@.len(),
            forall|j: int| 0 <= j < k ==> v@[j] != d,
        decreases v@.len() - k,
    {
        if v[k] == d {
            assert(v@[k as int] == d);
            return true;
        }
        k = k + 1;
    }
    false
}

fn contains_str(v: &Vec<String>, s: &String) -> (r: bool)
    ensures
        r == strings_view(v@).contains(s@),
{
    let mut k: usize = 0;
    while k < v.len()
        invariant
            k <= v@.len(),
            forall|j: int| 0 <= j < k ==> v@[j]@ != s@,
        decreases v@.len() - k,
    {
        if v[k] == *s {
            assert(strings_view(v@)[k as int] == s@);
            return true;
        }
        k = k + 1;
    }
    proof {
        if strings_view(v@).contains(s@) {
            let j = choose|j: int| 0 <= j < strings_view(v@).len() && strings_view(v@)[j] == s@;
            assert(v@[j]@ == s@);
        }
    }
    false
}

fn inc_depth(d: usize) -> (r: usize)
    ensures
        r as nat == inc(d as nat),
{
    if d < usize::MAX {
        d + 1
    } else {
        d
    }
}

fn no_contributors_exec(children: Vec<PassDebugDependencyNode>, Ghost(ts): Ghost<Seq<DepTree>>) -> (r: Vec<
    PassDebugDependencyNode,
>)
    requires
        dep_nodes_are(children@, ts),
    ensures
        dep_nodes_are(r@, no_contributors(ts)),
{
    if children.len() == 0 {
        one_node(leaf_node(owned("[source] no contributors")), Ghost(dep_leaf("[source] no contributors"@)))
    } else {
        children
    }
}

fn no_nodes() -> (r: Vec<PassDebugDependencyNode>)
    ensures
        dep_nodes_are(r@, seq![]),
{
    Vec::new()
}

fn return_indices_exec(i: &TreeInputs, scope: &String) -> (r: Vec<usize>)
    ensures
        r@.map_values(|x: usize| x as int) == scope_returns_of(tctx(*i), scope@),
        forall|k: int| 0 <= k < r@.len() ==> r@[k] < i.flow.returns@.len(),
{
    let rs = &i.flow.returns;
    let mut out: Vec<usize> = Vec::new();
    let mut k: usize = 0;
    while k < rs.len()
        invariant
            rs@ == i.flow.returns@,
            k <= rs@.len(),
            out@.map_values(|x: usize| x as int) == return_indices(rs@, scope@, k as int),
            forall|q: int| 0 <= q < out@.len() ==> out@[q] < k,
        decreases rs@.len() - k,
    {
        if rs[k].scope == *scope {
            let ghost before = out@;
            out.push(k);
            assert(out@.map_values(|x: usize| x as int) =~= before.map_values(|x: usize| x as int).push(k as int));
        }
        k = k + 1;
    }
    out
}

fn empty_seen() -> (r: Vec<ExprRef>)
    ensures
        seen_view(r@) == Seq::<(Option<Seq<char>>, usize)>::empty(),
{
    let r: Vec<ExprRef> = Vec::new();
    assert(seen_view(r@) =~= Seq::<(Option<Seq<char>>, usize)>::empty());
    r
}

fn empty_dstack() -> (r: Vec<usize>)
    ensures
        r@ == Seq::<usize>::empty(),
{
    Vec::new()
}

fn leaf_with(prefix: &str, s: &str) -> (r: PassDebugDependencyNode)
    ensures
        dep_node_is(r, dep_leaf(prefix@ + s@)),
{
    leaf_node(concat(prefix, s))
}

fn target_node_with(
    label: String,
    tid: String,
    edge: Option<String>,
    display: Option<String>,
    range: Option<PassDebugSourceRange>,
    def_range: Option<PassDebugSourceRange>,
    children: Vec<PassDebugDependencyNode>,
    Ghost(ts): Ghost<Seq<DepTree>>,
) -> (r: PassDebugDependencyNode)
    requires
        dep_nodes_are(children@, ts),
    ensures
        dep_node_is(
            r,
            DepTree {
                label: label@,
                edge_label: opt_string(edge),
                display_label: opt_string(display),
                source_range: range,
                definition_source_range: def_range,
                target_id: Some(tid@),
                reference: false,
                children: ts,
            },
        ),
{
    let ghost t = DepTree {
        label: label@,
        edge_label: opt_string(edge),
        display_label: opt_string(display),
        source_range: range,
        definition_source_range: def_range,
        target_id: Some(tid@),
        reference: false,
        children: ts,
    };
    dep_node(Ghost(t), label, edge, display, range, def_range, Some(tid), false, children)
}

/// `build_definition_reference_node`.
fn build_definition_reference_node(
    i: &TreeInputs,
    d: usize,
    edge: &Option<String>,
    display: &Option<String>,
    range: Option<PassDebugSourceRange>,
) -> (r: Option<PassDebugDependencyNode>)
    ensures
        match r {
            Some(n) => definition_reference(tctx(*i), d, opt_string(*edge), opt_string(*display), range) matches Some(t)
                && dep_node_is(n, t),
            None => definition_reference(tctx(*i), d, opt_string(*edge), opt_string(*display), range) is None,
        },
{
    if d >= i.flow.definitions.len() {
        return None;
    }
    let def = &i.flow.definitions[d];
    match super::flow::find_known(i.targets, &def.target_id) {
        None => None,
        Some(k) => {
            let t = &i.targets[k];
            let disp = definition_display_label(i, t, def, clone_opt(display), range);
            target_reference_node(i, &def.target_id, clone_opt(edge), Some(disp), range, def.source_range)
        },
    }
}

/// `build_target_tree_with_context`: the tree of target `tid`.
fn build_target_tree_with_context<'a>(
    i: &TreeInputs<'a>,
    tid: &String,
    stack: &Vec<String>,
    depth: usize,
    edge: Option<String>,
    display: Option<String>,
    range: Option<PassDebugSourceRange>,
    lim: usize,
    Ghost(ma): Ghost<nat>,
    Ghost(mh): Ghost<nat>,
) -> (r: PassDebugDependencyNode)
    ensures
        dep_node_is(
            r,
            target_tree(tctx(*i), tid@, strings_view(stack@), depth as nat, opt_string(edge), opt_string(display), range, lim as nat, ma, mh),
        ),
    decreases topm(strings_view(stack@)), lim as nat, dm(depth as nat), ma, mh, 5nat, 0nat,
{
    let ghost c = tctx(*i);
    let ghost sv = strings_view(stack@);
    if should_reference_target(stack, tid) {
        match target_reference_node(i, tid, clone_opt(&edge), clone_opt(&display), range, None) {
            Some(n) => {
                return n;
            },
            None => {},
        }
    }
    if depth >= MAX_DEPENDENCY_DEPTH {
        return match target_reference_node(i, tid, edge, display, range, None) {
            Some(n) => n,
            None => {
                let label = concat(tid.as_str(), " [depth limit]");
                target_node_with(label, tid.clone(), None, None, None, None, no_nodes(), Ghost(Seq::<DepTree>::empty()))
            },
        };
    }
    if contains_str(stack, tid) {
        let label = concat(tid.as_str(), " [cycle]");
        return target_node_with(label, tid.clone(), edge, display, None, None, no_nodes(), Ghost(Seq::<DepTree>::empty()));
    }
    let k = match super::flow::find_known(i.targets, tid) {
        None => {
            return leaf_with("missing target ", tid.as_str());
        },
        Some(k) => k,
    };
    let t = &i.targets[k];
    let kind = match target_kind(i, t) {
        None => {
            return leaf_with("missing target kind ", tid.as_str());
        },
        Some(kind) => kind,
    };
    assert(sv.len() == 0);
    let inner = push_string(stack, tid);
    let ghost iv = sv.push(tid@);
    let ghost spec_children = match kind_view(kind) {
        KindView::Global(h) => global_children(c, h, iv, depth as nat, lim as nat),
        KindView::Argument(scope, index) => seq![
            dep_leaf("[source] function argument "@ + scope + "::"@ + spec_decimal(index as nat)),
        ],
        KindView::Local(scope, h) => local_children(c, scope, h, tid@, iv, depth as nat, lim as nat),
        KindView::Named(scope, h) => expr_deps(c, (Some(scope), h), None, None, None, iv, seq![], seq![], inc(depth as nat), lim as nat),
        KindView::Return(scope) => return_children(c, scope, iv, inc(depth as nat), lim as nat),
    };
    let children = match kind {
        TargetKind::Global(h) => global_target_children(i, h, &inner, depth, lim),
        TargetKind::Argument(scope, index) => {
            let digits = decimal(index);
            let mut label = concat3("[source] function argument ", scope.as_str(), "::");
            label.append(digits.as_str());
            let ghost want = dep_leaf("[source] function argument "@ + scope@ + "::"@ + spec_decimal(index as nat));
            assert(label@ == want.label);
            one_node(leaf_node(label), Ghost(want))
        },
        TargetKind::Local(scope, h) => local_target_children(i, &scope, h, tid, &inner, depth, lim),
        TargetKind::Named(scope, h) => {
            let e = ExprRef { scope: Some(scope), handle: h };
            semantic_expr_dependencies_with_hint(i, &e, &None, None, None, &inner, &empty_seen(), &empty_dstack(), inc_depth(depth), lim)
        },
        TargetKind::Return(scope) => return_target_children(i, &scope, &inner, inc_depth(depth), lim),
    };
    let children = no_contributors_exec(children, Ghost(spec_children));
    let label = dependency_target_node_label(t, display_as_str(&display));
    target_node_with(label, t.id.clone(), edge, display, range, None, children, Ghost(no_contributors(spec_children)))
}

/// `global_target_children`.
fn global_target_children<'a>(i: &TreeInputs<'a>, h: usize, stack: &Vec<String>, depth: usize, lim: usize) -> (r: Vec<
    PassDebugDependencyNode,
>)
    ensures
        dep_nodes_are(r@, global_children(tctx(*i), h, strings_view(stack@), depth as nat, lim as nat)),
    decreases topm(strings_view(stack@)), lim as nat, dm(depth as nat), 2nat, 0nat, 4nat, 0nat,
{
    let ghost c = tctx(*i);
    let ghost sv = strings_view(stack@);
    let ghost init_spec = if h < c.m.globals@.len() {
        match c.m.globals@[h as int].init {
            Some(x) => expr_deps(c, (None, x), None, None, None, sv, seq![], seq![], inc(depth as nat), lim as nat),
            None => seq![],
        }
    } else {
        seq![]
    };
    let mut out = if h < i.m.globals.len() {
        match i.m.globals[h].init {
            Some(x) => {
                let e = ExprRef { scope: None, handle: x };
                semantic_expr_dependencies_with_hint(i, &e, &None, None, None, stack, &empty_seen(), &empty_dstack(), inc_depth(depth), lim)
            },
            None => no_nodes(),
        }
    } else {
        no_nodes()
    };
    let gid = global_id(h);
    let finals = final_definition_nodes_for_target(i, &gid, stack, inc_depth(depth), lim);
    append_nodes(&mut out, finals, Ghost(init_spec), Ghost(final_definition_nodes(c, spec_global_id(h as nat), sv, inc(depth as nat), lim as nat)));
    out
}

/// `local_target_children`.
fn local_target_children<'a>(
    i: &TreeInputs<'a>,
    scope: &String,
    h: usize,
    tid: &String,
    stack: &Vec<String>,
    depth: usize,
    lim: usize,
) -> (r: Vec<PassDebugDependencyNode>)
    ensures
        dep_nodes_are(r@, local_children(tctx(*i), scope@, h, tid@, strings_view(stack@), depth as nat, lim as nat)),
    decreases topm(strings_view(stack@)), lim as nat, dm(depth as nat), 2nat, 0nat, 4nat, 0nat,
{
    let finals = final_definition_nodes_for_target(i, tid, stack, inc_depth(depth), lim);
    if finals.len() > 0 {
        return finals;
    }
    match scope_function_exec(i.m, scope.as_str()) {
        Some(f) => if h < f.locals.len() {
            match f.locals[h].init {
                Some(x) => {
                    let e = ExprRef { scope: Some(scope.clone()), handle: x };
                    semantic_expr_dependencies_with_hint(i, &e, &None, None, None, stack, &empty_seen(), &empty_dstack(), inc_depth(depth), lim)
                },
                None => no_nodes(),
            }
        } else {
            no_nodes()
        },
        None => no_nodes(),
    }
}

/// `final_definition_nodes_for_target`.
fn final_definition_nodes_for_target<'a>(i: &TreeInputs<'a>, tid: &String, stack: &Vec<String>, depth: usize, lim: usize) -> (r: Vec<
    PassDebugDependencyNode,
>)
    ensures
        dep_nodes_are(r@, final_definition_nodes(tctx(*i), tid@, strings_view(stack@), depth as nat, lim as nat)),
    decreases topm(strings_view(stack@)), lim as nat, dm(depth as nat), 2nat, 0nat, 1nat, 0nat,
{
    let ghost c = tctx(*i);
    let ghost sv = strings_view(stack@);
    let ds = match env_get_exec(i.finals, tid) {
        None => {
            return no_nodes();
        },
        Some(ds) => ds,
    };
    let mut out = no_nodes();
    let mut k: usize = 0;
    while k < ds.len()
        invariant
            c == tctx(*i),
            sv == strings_view(stack@),
            k <= ds@.len(),
            dep_nodes_are(out@, final_fold(c, ds@, k as int, sv, depth as nat, lim as nat)),
        decreases ds@.len() - k,
    {
        let d = ds[k];
        let ghost want = if (d as nat) < lim as nat {
            definition_node(c, d, None, None, None, None, true, sv, seq![], seq![], inc(depth as nat), d as nat)
        } else {
            dep_leaf("missing definition "@ + spec_decimal(d as nat))
        };
        let node = if d < lim {
            build_definition_node(i, d, &None, &None, None, &None, true, stack, &empty_seen(), &empty_dstack(), inc_depth(depth), d)
        } else {
            let digits = decimal(d);
            leaf_with("missing definition ", digits.as_str())
        };
        let ghost before = final_fold(c, ds@, k as int, sv, depth as nat, lim as nat);
        append_nodes(&mut out, one_node(node, Ghost(want)), Ghost(before), Ghost(Seq::<DepTree>::empty().push(want)));
        assert(before + seq![want] =~= final_fold(c, ds@, k + 1, sv, depth as nat, lim as nat));
        k = k + 1;
    }
    out
}

/// `return_target_children`.
fn return_target_children<'a>(i: &TreeInputs<'a>, scope: &String, stack: &Vec<String>, depth: usize, lim: usize) -> (r: Vec<
    PassDebugDependencyNode,
>)
    ensures
        dep_nodes_are(r@, return_children(tctx(*i), scope@, strings_view(stack@), depth as nat, lim as nat)),
    decreases topm(strings_view(stack@)), lim as nat, dm(depth as nat), 2nat, 0nat, 4nat, 0nat,
{
    let ghost c = tctx(*i);
    let ghost sv = strings_view(stack@);
    let idx = return_indices_exec(i, scope);
    let ghost iv = idx@.map_values(|x: usize| x as int);
    if idx.len() == 0 {
        return no_nodes();
    }
    assert(iv[0] == idx@[0] as int);
    if idx.len() == 1 && i.flow.returns[idx[0]].controls.len() == 0 {
        let ret = &i.flow.returns[idx[0]];
        return match ret.value {
            Some(v) => {
                let e = ExprRef { scope: Some(scope.clone()), handle: v };
                semantic_expr_dependencies_with_hint(i, &e, &None, None, Some(&ret.env), stack, &empty_seen(), &empty_dstack(), inc_depth(depth), lim)
            },
            None => no_nodes(),
        };
    }
    let mut out = no_nodes();
    let mut k: usize = 0;
    while k < idx.len()
        invariant
            c == tctx(*i),
            sv == strings_view(stack@),
            iv == idx@.map_values(|x: usize| x as int),
            forall|q: int| 0 <= q < idx@.len() ==> idx@[q] < i.flow.returns@.len(),
            k <= idx@.len(),
            dep_nodes_are(out@, return_fold(c, scope@, iv, k as int, sv, depth as nat, lim as nat)),
        decreases idx@.len() - k,
    {
        let r = idx[k];
        assert(iv[k as int] == r as int);
        let ret = &i.flow.returns[r];
        let ghost value_spec = match ret.value {
            Some(v) => expr_deps(c, (Some(scope@), v), None, None, Some(ret.env), sv, seq![], seq![], inc(depth as nat), lim as nat),
            None => seq![],
        };
        let ghost controls_spec = control_nodes(c, scope@, ret.controls@, ret.controls@.len() as int, sv, inc(depth as nat), lim as nat);
        let mut children = control_nodes_exec(i, scope, &ret.controls, stack, inc_depth(depth), lim);
        let value = match ret.value {
            Some(v) => {
                let e = ExprRef { scope: Some(scope.clone()), handle: v };
                semantic_expr_dependencies_with_hint(i, &e, &None, None, Some(&ret.env), stack, &empty_seen(), &empty_dstack(), inc_depth(depth), lim)
            },
            None => no_nodes(),
        };
        append_nodes(&mut children, value, Ghost(controls_spec), Ghost(value_spec));
        let digits = decimal(k);
        let mut label = concat3("[return ", digits.as_str(), "] ");
        label.append(scope.as_str());
        let ghost want = dep_branch("[return "@ + spec_decimal(k as nat) + "] "@ + scope@, controls_spec + value_spec);
        let node = dep_node(Ghost(want), label, None, None, None, None, None, false, children);
        let ghost before = return_fold(c, scope@, iv, k as int, sv, depth as nat, lim as nat);
        append_nodes(&mut out, one_node(node, Ghost(want)), Ghost(before), Ghost(Seq::<DepTree>::empty().push(want)));
        assert(before + seq![want] =~= return_fold(c, scope@, iv, k + 1, sv, depth as nat, lim as nat));
        k = k + 1;
    }
    out
}

/// `control_nodes`.
fn control_nodes_exec<'a>(
    i: &TreeInputs<'a>,
    scope: &String,
    controls: &'a Vec<ControlDependency>,
    stack: &Vec<String>,
    depth: usize,
    lim: usize,
) -> (r: Vec<PassDebugDependencyNode>)
    ensures
        dep_nodes_are(
            r@,
            control_nodes(tctx(*i), scope@, controls@, controls@.len() as int, strings_view(stack@), depth as nat, lim as nat),
        ),
    decreases topm(strings_view(stack@)), lim as nat, dm(depth as nat), 2nat, 0nat, 2nat, 0nat,
{
    let ghost c = tctx(*i);
    let ghost sv = strings_view(stack@);
    let mut out = no_nodes();
    let mut k: usize = 0;
    while k < controls.len()
        invariant
            c == tctx(*i),
            sv == strings_view(stack@),
            k <= controls@.len(),
            dep_nodes_are(out@, control_nodes(c, scope@, controls@, k as int, sv, depth as nat, lim as nat)),
        decreases controls@.len() - k,
    {
        let ctl = &controls[k];
        let e = ExprRef { scope: Some(scope.clone()), handle: ctl.expr };
        let ghost want = relation_node(c, (Some(scope@), ctl.expr), ctl.label@, ctl.env, sv, inc(depth as nat), lim as nat);
        let node = semantic_relation_node(i, &e, &ctl.label, &ctl.env, stack, inc_depth(depth), lim);
        let ghost before = control_nodes(c, scope@, controls@, k as int, sv, depth as nat, lim as nat);
        append_nodes(&mut out, one_node(node, Ghost(want)), Ghost(before), Ghost(Seq::<DepTree>::empty().push(want)));
        assert(before + seq![want] =~= control_nodes(c, scope@, controls@, k + 1, sv, depth as nat, lim as nat));
        k = k + 1;
    }
    out
}

/// `semantic_relation_node`.
fn semantic_relation_node<'a>(
    i: &TreeInputs<'a>,
    e: &ExprRef,
    label: &String,
    env: &'a DefinitionEnv,
    stack: &Vec<String>,
    depth: usize,
    lim: usize,
) -> (r: PassDebugDependencyNode)
    ensures
        dep_node_is(r, relation_node(tctx(*i), eview(*e), label@, *env, strings_view(stack@), depth as nat, lim as nat)),
    decreases topm(strings_view(stack@)), lim as nat, dm(depth as nat), 2nat, 0nat, 1nat, 0nat,
{
    let ghost spec_children = expr_deps(tctx(*i), eview(*e), None, None, Some(*env), strings_view(stack@), seq![], seq![], inc(depth as nat), lim as nat);
    let children = semantic_expr_dependencies_with_hint(i, e, &None, None, Some(env), stack, &empty_seen(), &empty_dstack(), inc_depth(depth), lim);
    if children.len() == 0 {
        leaf_with(label.as_str(), " [no variable dependencies]")
    } else {
        dep_node(Ghost(dep_branch(label@, spec_children)), label.clone(), None, None, None, None, None, false, children)
    }
}


fn op_edge_exec(edge: &Option<String>, op: &str) -> (r: Option<String>)
    ensures
        opt_string(r) == op_edge(opt_string(*edge), op@),
{
    match edge {
        Some(x) => Some(x.clone()),
        None => Some(owned(op)),
    }
}

fn handles1(a: usize) -> (r: Vec<usize>)
    ensures
        r@ == seq![a],
{
    let mut v: Vec<usize> = Vec::new();
    v.push(a);
    v
}

fn handles2(a: usize, b: usize) -> (r: Vec<usize>)
    ensures
        r@ == seq![a, b],
{
    let mut v = handles1(a);
    v.push(b);
    v
}

fn handles3(a: usize, b: usize, c: usize) -> (r: Vec<usize>)
    ensures
        r@ == seq![a, b, c],
{
    let mut v = handles2(a, b);
    v.push(c);
    v
}

fn push_opt_handle(v: &mut Vec<usize>, o: Option<usize>)
    ensures
        final(v)@ == old(v)@ + opt_handle(o),
{
    match o {
        Some(x) => {
            v.push(x);
        },
        None => {
            assert(old(v)@ + opt_handle(o) =~= old(v)@);
        },
    }
}

/// `semantic_expr_dependencies_with_hint`: what expression `e` depends on.
fn semantic_expr_dependencies_with_hint<'a>(
    i: &TreeInputs<'a>,
    e: &ExprRef,
    edge: &Option<String>,
    occ: Option<PassDebugSourceRange>,
    env: Option<&'a DefinitionEnv>,
    stack: &Vec<String>,
    seen: &Vec<ExprRef>,
    dstack: &Vec<usize>,
    depth: usize,
    lim: usize,
) -> (r: Vec<PassDebugDependencyNode>)
    ensures
        dep_nodes_are(
            r@,
            expr_deps(
                tctx(*i),
                eview(*e),
                opt_string(*edge),
                occ,
                opt_env(env),
                strings_view(stack@),
                seen_view(seen@),
                dstack@,
                depth as nat,
                lim as nat,
            ),
        ),
    decreases topm(strings_view(stack@)), lim as nat, dm(depth as nat), arena_rank(eview(*e)), e.handle as nat, 8nat, 0nat,
{
    let ghost c = tctx(*i);
    let ghost sv = strings_view(stack@);
    let ghost ev = eview(*e);
    let ghost ed = opt_string(*edge);
    let eff: Option<&'a DefinitionEnv> = match env {
        Some(v) => Some(v),
        None => expr_env_exec(i, e),
    };
    assert(opt_env(eff) == effective_env(c, opt_env(env), ev));
    match named_expression_target_id(i.m, e) {
        Some(nt) => {
            if !contains_str(stack, &nt) {
                let ghost want = named_tree(
                    c,
                    nt@,
                    ev,
                    opt_env(eff),
                    sv,
                    inc(depth as nat),
                    ed,
                    None,
                    occ,
                    seen_view(seen@),
                    dstack@,
                    lim as nat,
                );
                let node = build_named_expression_tree_with_context(
                    i,
                    &nt,
                    e,
                    eff,
                    stack,
                    inc_depth(depth),
                    edge,
                    &None,
                    occ,
                    seen,
                    dstack,
                    lim,
                );
                return one_node(node, Ghost(want));
            }
        },
        None => {},
    }
    match access_path_target(i.m, i.source, i.targets, e, stack) {
        Some(ap) => {
            let range = match occ {
                Some(r) => Some(r),
                None => ap.source_range,
            };
            let display = Some(ap.display_label.clone());
            let ghost apv = super::access::path_view(ap);
            let ghost defs_spec = definition_nodes(
                c,
                apv.target_id,
                ed,
                Some(apv.display_label),
                range,
                apv.projection,
                opt_env(eff),
                sv,
                seen_view(seen@),
                dstack@,
                inc(depth as nat),
                lim as nat,
                arena_rank(ev),
                e.handle as nat,
            );
            let ghost tree_spec = target_tree(
                c,
                apv.target_id,
                sv,
                inc(depth as nat),
                ed,
                Some(apv.display_label),
                range,
                lim as nat,
                arena_rank(ev),
                e.handle as nat,
            );
            let ghost first_spec = match defs_spec {
                Some(ns) => ns,
                None => seq![tree_spec],
            };
            let mut first = match definition_nodes_for_target(
                i,
                &ap.target_id,
                edge,
                &display,
                range,
                &ap.projection,
                eff,
                stack,
                seen,
                dstack,
                inc_depth(depth),
                lim,
                Ghost(arena_rank(ev)),
                Ghost(e.handle as nat),
            ) {
                Some(ns) => ns,
                None => {
                    let n = build_target_tree_with_context(
                        i,
                        &ap.target_id,
                        stack,
                        inc_depth(depth),
                        clone_opt(edge),
                        display,
                        range,
                        lim,
                        Ghost(arena_rank(ev)),
                        Ghost(e.handle as nat),
                    );
                    one_node(n, Ghost(tree_spec))
                },
            };
            let ghost rest_spec = index_deps(
                c,
                ev,
                ed,
                opt_env(eff),
                sv,
                seen_view(seen@),
                dstack@,
                inc(depth as nat),
                lim as nat,
            );
            let rest = access_path_index_dependencies(i, e, edge, eff, stack, seen, dstack, inc_depth(depth), lim);
            append_nodes(&mut first, rest, Ghost(first_spec), Ghost(rest_spec));
            first
        },
        None => {
            if depth >= MAX_DEPENDENCY_DEPTH {
                return one_node(leaf_node(owned("[depth limit]")), Ghost(dep_leaf("[depth limit]"@)));
            }
            if contains_ref(seen, e) {
                return no_nodes();
            }
            match expr_at_exec(i.m, e) {
                None => no_nodes(),
                Some(x) => {
                    let inner = push_ref(seen, e);
                    semantic_expression_children(i, e, x, edge, eff, stack, &inner, dstack, inc_depth(depth), lim)
                },
            }
        },
    }
}

/// `build_named_expression_tree_with_context`.
fn build_named_expression_tree_with_context<'a>(
    i: &TreeInputs<'a>,
    tid: &String,
    e: &ExprRef,
    env: Option<&'a DefinitionEnv>,
    stack: &Vec<String>,
    depth: usize,
    edge: &Option<String>,
    display: &Option<String>,
    range: Option<PassDebugSourceRange>,
    seen: &Vec<ExprRef>,
    dstack: &Vec<usize>,
    lim: usize,
) -> (r: PassDebugDependencyNode)
    ensures
        dep_node_is(
            r,
            named_tree(
                tctx(*i),
                tid@,
                eview(*e),
                opt_env(env),
                strings_view(stack@),
                depth as nat,
                opt_string(*edge),
                opt_string(*display),
                range,
                seen_view(seen@),
                dstack@,
                lim as nat,
            ),
        ),
    decreases topm(strings_view(stack@)), lim as nat, dm(depth as nat), arena_rank(eview(*e)), e.handle as nat, 2nat, 0nat,
{
    let ghost c = tctx(*i);
    let ghost sv = strings_view(stack@);
    if should_reference_target(stack, tid) {
        match target_reference_node(i, tid, clone_opt(edge), clone_opt(display), range, None) {
            Some(n) => {
                return n;
            },
            None => {},
        }
    }
    if depth >= MAX_DEPENDENCY_DEPTH {
        return match target_reference_node(i, tid, clone_opt(edge), clone_opt(display), range, None) {
            Some(n) => n,
            None => {
                let label = concat(tid.as_str(), " [depth limit]");
                target_node_with(label, tid.clone(), None, None, None, None, no_nodes(), Ghost(Seq::<DepTree>::empty()))
            },
        };
    }
    if contains_str(stack, tid) {
        let label = concat(tid.as_str(), " [cycle]");
        return target_node_with(label, tid.clone(), clone_opt(edge), clone_opt(display), range, None, no_nodes(), Ghost(Seq::<DepTree>::empty()));
    }
    let k = match super::flow::find_known(i.targets, tid) {
        None => {
            return leaf_with("missing target ", tid.as_str());
        },
        Some(k) => k,
    };
    let t = &i.targets[k];
    let inner = push_string(stack, tid);
    let ghost spec_children = expr_deps(
        c,
        eview(*e),
        None,
        None,
        opt_env(env),
        sv.push(tid@),
        seen_view(seen@),
        dstack@,
        inc(depth as nat),
        lim as nat,
    );
    let children = semantic_expr_dependencies_with_hint(i, e, &None, None, env, &inner, seen, dstack, inc_depth(depth), lim);
    let children = no_contributors_exec(children, Ghost(spec_children));
    let label = dependency_target_node_label(t, display_as_str(display));
    target_node_with(
        label,
        t.id.clone(),
        clone_opt(edge),
        clone_opt(display),
        range,
        None,
        children,
        Ghost(no_contributors(spec_children)),
    )
}

/// `access_path_index_dependencies`: what the indices along an access chain
/// depend on.
fn access_path_index_dependencies<'a>(
    i: &TreeInputs<'a>,
    e: &ExprRef,
    edge: &Option<String>,
    env: Option<&'a DefinitionEnv>,
    stack: &Vec<String>,
    seen: &Vec<ExprRef>,
    dstack: &Vec<usize>,
    depth: usize,
    lim: usize,
) -> (r: Vec<PassDebugDependencyNode>)
    ensures
        dep_nodes_are(
            r@,
            index_deps(
                tctx(*i),
                eview(*e),
                opt_string(*edge),
                opt_env(env),
                strings_view(stack@),
                seen_view(seen@),
                dstack@,
                depth as nat,
                lim as nat,
            ),
        ),
    decreases topm(strings_view(stack@)), lim as nat, dm(depth as nat), arena_rank(eview(*e)), e.handle as nat, 3nat, 0nat,
{
    let ghost c = tctx(*i);
    let ghost sv = strings_view(stack@);
    let ghost ev = eview(*e);
    let ghost ed = opt_string(*edge);
    match expr_at_exec(i.m, e) {
        None => no_nodes(),
        Some(x) => match &x.kind {
            IrExprKind::Operands { op } => match op {
                IrExprOp::Load { pointer } => if *pointer < e.handle {
                    let p = super::access::sibling(e, *pointer);
                    access_path_index_dependencies(i, &p, edge, env, stack, seen, dstack, inc_depth(depth), lim)
                } else {
                    no_nodes()
                },
                IrExprOp::Access { base, index } => {
                    let ghost bs = if *base < ev.1 {
                        index_deps(c, (ev.0, *base), ed, opt_env(env), sv, seen_view(seen@), dstack@, inc(depth as nat), lim as nat)
                    } else {
                        seq![]
                    };
                    let ghost is = if *index < ev.1 {
                        expr_deps(c, (ev.0, *index), ed, None, opt_env(env), sv, seen_view(seen@), dstack@, inc(depth as nat), lim as nat)
                    } else {
                        seq![]
                    };
                    let mut b = if *base < e.handle {
                        let p = super::access::sibling(e, *base);
                        access_path_index_dependencies(i, &p, edge, env, stack, seen, dstack, inc_depth(depth), lim)
                    } else {
                        no_nodes()
                    };
                    let ix = if *index < e.handle {
                        let p = super::access::sibling(e, *index);
                        semantic_expr_dependencies_with_hint(i, &p, edge, None, env, stack, seen, dstack, inc_depth(depth), lim)
                    } else {
                        no_nodes()
                    };
                    append_nodes(&mut b, ix, Ghost(bs), Ghost(is));
                    b
                },
                IrExprOp::AccessIndex { base, .. } => if *base < e.handle {
                    let p = super::access::sibling(e, *base);
                    access_path_index_dependencies(i, &p, edge, env, stack, seen, dstack, inc_depth(depth), lim)
                } else {
                    no_nodes()
                },
                _ => no_nodes(),
            },
            IrExprKind::Swizzle { vector, .. } => if *vector < e.handle {
                let p = super::access::sibling(e, *vector);
                access_path_index_dependencies(i, &p, edge, env, stack, seen, dstack, inc_depth(depth), lim)
            } else {
                no_nodes()
            },
            _ => no_nodes(),
        },
    }
}

/// `definition_nodes_for_target`: the definitions of `tid` that `env` lets
/// reach, as nodes; `None` without an environment or an entry for `tid`.
fn definition_nodes_for_target<'a>(
    i: &TreeInputs<'a>,
    tid: &String,
    edge: &Option<String>,
    display: &Option<String>,
    range: Option<PassDebugSourceRange>,
    projection: &Option<Vec<u32>>,
    env: Option<&'a DefinitionEnv>,
    stack: &Vec<String>,
    seen: &Vec<ExprRef>,
    dstack: &Vec<usize>,
    depth: usize,
    lim: usize,
    Ghost(ma): Ghost<nat>,
    Ghost(mh): Ghost<nat>,
) -> (r: Option<Vec<PassDebugDependencyNode>>)
    ensures
        match r {
            Some(v) => definition_nodes(
                tctx(*i),
                tid@,
                opt_string(*edge),
                opt_string(*display),
                range,
                opt_indices(*projection),
                opt_env(env),
                strings_view(stack@),
                seen_view(seen@),
                dstack@,
                depth as nat,
                lim as nat,
                ma,
                mh,
            ) matches Some(ts) && dep_nodes_are(v@, ts),
            None => definition_nodes(
                tctx(*i),
                tid@,
                opt_string(*edge),
                opt_string(*display),
                range,
                opt_indices(*projection),
                opt_env(env),
                strings_view(stack@),
                seen_view(seen@),
                dstack@,
                depth as nat,
                lim as nat,
                ma,
                mh,
            ) is None,
        },
    decreases topm(strings_view(stack@)), lim as nat, dm(depth as nat), ma, mh, 1nat, 0nat,
{
    let ghost c = tctx(*i);
    let ghost sv = strings_view(stack@);
    let ghost ed = opt_string(*edge);
    let ghost dd = opt_string(*display);
    let ghost pj = opt_indices(*projection);
    let v = match env {
        None => {
            return None;
        },
        Some(v) => v,
    };
    let ds = match env_get_exec(v, tid) {
        None => {
            return None;
        },
        Some(ds) => ds,
    };
    let referencing = should_reference_target(stack, tid);
    let d_depth = if is_root_target(stack, tid) {
        1
    } else {
        inc_depth(depth)
    };
    let mut out = no_nodes();
    let mut k: usize = 0;
    while k < ds.len()
        invariant
            c == tctx(*i),
            sv == strings_view(stack@),
            ed == opt_string(*edge),
            dd == opt_string(*display),
            pj == opt_indices(*projection),
            referencing == should_reference(sv, tid@),
            d_depth as nat == (if is_root(sv, tid@) {
                1nat
            } else {
                inc(depth as nat)
            }),
            k <= ds@.len(),
            dep_nodes_are(
                out@,
                definition_fold(c, tid@, ed, dd, range, pj, ds@, k as int, sv, seen_view(seen@), dstack@, depth as nat, lim as nat, ma, mh),
            ),
        decreases ds@.len() - k,
    {
        let d = ds[k];
        let ghost want = if should_reference(sv, tid@) && definition_reference(c, d, ed, dd, range) is Some {
            definition_reference(c, d, ed, dd, range)->0
        } else if (d as nat) < lim as nat {
            definition_node(c, d, ed, dd, range, pj, false, sv, seen_view(seen@), dstack@, d_depth as nat, d as nat)
        } else {
            dep_leaf("missing definition "@ + spec_decimal(d as nat))
        };
        let reference = if referencing {
            build_definition_reference_node(i, d, edge, display, range)
        } else {
            None
        };
        let node = match reference {
            Some(n) => n,
            None => if d < lim {
                build_definition_node(i, d, edge, display, range, projection, false, stack, seen, dstack, d_depth, d)
            } else {
                let digits = decimal(d);
                leaf_with("missing definition ", digits.as_str())
            },
        };
        let ghost before = definition_fold(c, tid@, ed, dd, range, pj, ds@, k as int, sv, seen_view(seen@), dstack@, depth as nat, lim as nat, ma, mh);
        append_nodes(&mut out, one_node(node, Ghost(want)), Ghost(before), Ghost(Seq::<DepTree>::empty().push(want)));
        assert(before + seq![want] =~= definition_fold(c, tid@, ed, dd, range, pj, ds@, k + 1, sv, seen_view(seen@), dstack@, depth as nat, lim as nat, ma, mh));
        k = k + 1;
    }
    Some(out)
}

/// `build_definition_node`: definition `d`, with the conditions that govern
/// it and what its value depends on.
fn build_definition_node<'a>(
    i: &TreeInputs<'a>,
    d: usize,
    edge: &Option<String>,
    display: &Option<String>,
    range: Option<PassDebugSourceRange>,
    projection: &Option<Vec<u32>>,
    is_occurrence: bool,
    stack: &Vec<String>,
    seen: &Vec<ExprRef>,
    dstack: &Vec<usize>,
    depth: usize,
    lim: usize,
) -> (r: PassDebugDependencyNode)
    ensures
        dep_node_is(
            r,
            definition_node(
                tctx(*i),
                d,
                opt_string(*edge),
                opt_string(*display),
                range,
                opt_indices(*projection),
                is_occurrence,
                strings_view(stack@),
                seen_view(seen@),
                dstack@,
                depth as nat,
                lim as nat,
            ),
        ),
    decreases topm(strings_view(stack@)), lim as nat, dm(depth as nat), 2nat, 0nat, 5nat, 0nat,
{
    let ghost c = tctx(*i);
    let ghost sv = strings_view(stack@);
    let ghost ed = opt_string(*edge);
    if d >= i.flow.definitions.len() {
        let digits = decimal(d);
        return leaf_with("missing definition ", digits.as_str());
    }
    let def = &i.flow.definitions[d];
    let k = match super::flow::find_known(i.targets, &def.target_id) {
        None => {
            return leaf_with("missing target ", def.target_id.as_str());
        },
        Some(k) => k,
    };
    let t = &i.targets[k];
    let node_range = if is_occurrence {
        match range {
            Some(r) => Some(r),
            None => def.source_range,
        }
    } else {
        range
    };
    let disp = definition_display_label(i, t, def, clone_opt(display), node_range);
    let ddr = super::labels::distinct_definition_source_range(def.source_range, node_range);
    if should_reference_target(stack, &def.target_id) {
        return match target_reference_node(i, &def.target_id, clone_opt(edge), Some(disp), node_range, def.source_range) {
            Some(n) => n,
            None => target_node_with(t.label.clone(), t.id.clone(), None, None, None, None, no_nodes(), Ghost(Seq::<DepTree>::empty())),
        };
    }
    if depth >= MAX_DEPENDENCY_DEPTH {
        return match target_reference_node(i, &t.id, clone_opt(edge), Some(disp.clone()), node_range, def.source_range) {
            Some(n) => {
                let mut n = n;
                n.definition_source_range = ddr;
                n
            },
            None => {
                let label = concat(t.label.as_str(), " [depth limit]");
                target_node_with(label, t.id.clone(), clone_opt(edge), Some(disp), node_range, ddr, no_nodes(), Ghost(Seq::<DepTree>::empty()))
            },
        };
    }
    if contains_index(dstack, d) {
        let label = concat(t.label.as_str(), " [cycle]");
        return target_node_with(label, t.id.clone(), clone_opt(edge), clone_opt(display), node_range, ddr, no_nodes(), Ghost(Seq::<DepTree>::empty()));
    }
    let inner = push_index(dstack, d);
    let ghost controls_spec = control_nodes(
        c,
        def.scope@,
        def.controls@,
        def.controls@.len() as int,
        sv,
        inc(depth as nat),
        lim as nat,
    );
    let ghost value_spec = match def.value {
        Some(v) => {
            let vr = (Some(def.scope@), v);
            let vocc = match def.source_range {
                Some(sr) => value_occurrence_range(c.m, c.b, c.known, sr, vr),
                None => None,
            };
            if opt_indices(*projection) is Some && opt_indices(*projection)->0.len() > 0 {
                projected_deps(c, vr, None, vocc, opt_indices(*projection)->0, Some(def.env), sv, seen_view(seen@), dstack@.push(d), inc(depth as nat), lim as nat)
            } else {
                expr_deps(c, vr, None, vocc, Some(def.env), sv, seen_view(seen@), dstack@.push(d), inc(depth as nat), lim as nat)
            }
        },
        None => seq![],
    };
    let mut children = control_nodes_exec(i, &def.scope, &def.controls, stack, inc_depth(depth), lim);
    let value = match def.value {
        Some(v) => {
            let vr = ExprRef { scope: Some(def.scope.clone()), handle: v };
            let vocc = match def.source_range {
                Some(sr) => definition_value_occurrence_range(i.m, i.source, i.targets, sr, &vr),
                None => None,
            };
            match projection {
                Some(p) => if p.len() > 0 {
                    semantic_expr_dependencies_projected(i, &vr, &None, vocc, p, Some(&def.env), stack, seen, &inner, inc_depth(depth), lim)
                } else {
                    semantic_expr_dependencies_with_hint(i, &vr, &None, vocc, Some(&def.env), stack, seen, &inner, inc_depth(depth), lim)
                },
                None => semantic_expr_dependencies_with_hint(i, &vr, &None, vocc, Some(&def.env), stack, seen, &inner, inc_depth(depth), lim),
            }
        },
        None => no_nodes(),
    };
    append_nodes(&mut children, value, Ghost(controls_spec), Ghost(value_spec));
    let children = no_contributors_exec(children, Ghost(controls_spec + value_spec));
    let label = dependency_target_node_label(t, Some(disp.as_str()));
    target_node_with(label, t.id.clone(), clone_opt(edge), Some(disp), node_range, ddr, children, Ghost(no_contributors(controls_spec + value_spec)))
}


/// `semantic_expression_children`: what the operands of `x` depend on.
fn semantic_expression_children<'a>(
    i: &TreeInputs<'a>,
    e: &ExprRef,
    x: &IrExpression,
    edge: &Option<String>,
    env: Option<&'a DefinitionEnv>,
    stack: &Vec<String>,
    seen: &Vec<ExprRef>,
    dstack: &Vec<usize>,
    depth: usize,
    lim: usize,
) -> (r: Vec<PassDebugDependencyNode>)
    ensures
        dep_nodes_are(
            r@,
            expr_children(
                tctx(*i),
                eview(*e),
                *x,
                opt_string(*edge),
                opt_env(env),
                strings_view(stack@),
                seen_view(seen@),
                dstack@,
                depth as nat,
                lim as nat,
            ),
        ),
    decreases topm(strings_view(stack@)), lim as nat, dm(depth as nat), arena_rank(eview(*e)), e.handle as nat, 7nat, 0nat,
{
    let ghost c = tctx(*i);
    let ghost sv = strings_view(stack@);
    let ghost ev = eview(*e);
    let ghost ed = opt_string(*edge);
    let ranges = search_ranges_exec(i, e);
    let d1 = inc_depth(depth);
    let scoped = match &e.scope {
        Some(_) => true,
        None => false,
    };
    match &x.kind {
        IrExprKind::Leaf { leaf, .. } => match leaf {
            IrExprLeaf::Constant(h) => if *h < i.m.constants.len() {
                let init = i.m.constants[*h].init;
                if scoped || init < e.handle {
                    let o = ExprRef { scope: None, handle: init };
                    semantic_expr_dependencies_with_hint(i, &o, edge, None, env, stack, seen, dstack, d1, lim)
                } else {
                    no_nodes()
                }
            } else {
                no_nodes()
            },
            IrExprLeaf::Override(h) => if *h < i.m.overrides.len() {
                match i.m.overrides[*h].init {
                    Some(init) => if scoped || init < e.handle {
                        let o = ExprRef { scope: None, handle: init };
                        semantic_expr_dependencies_with_hint(i, &o, edge, None, env, stack, seen, dstack, d1, lim)
                    } else {
                        no_nodes()
                    },
                    None => no_nodes(),
                }
            } else {
                no_nodes()
            },
            IrExprLeaf::FunctionArgument(a) => {
                let scope = super::access::scope_of_exec(e);
                let tid = scoped_id(scope.as_str(), "arg", *a as usize);
                let ghost want = target_tree(
                    c,
                    spec_scoped_id(super::access::scope_of(ev), "arg"@, *a as nat),
                    sv,
                    d1 as nat,
                    ed,
                    None,
                    None,
                    lim as nat,
                    arena_rank(ev),
                    e.handle as nat,
                );
                let n = build_target_tree_with_context(
                    i,
                    &tid,
                    stack,
                    d1,
                    clone_opt(edge),
                    None,
                    None,
                    lim,
                    Ghost(arena_rank(ev)),
                    Ghost(e.handle as nat),
                );
                one_node(n, Ghost(want))
            },
            IrExprLeaf::GlobalVariable(g) => {
                let tid = global_id(*g);
                let ghost want = target_tree(
                    c,
                    spec_global_id(*g as nat),
                    sv,
                    d1 as nat,
                    ed,
                    None,
                    None,
                    lim as nat,
                    arena_rank(ev),
                    e.handle as nat,
                );
                let n = build_target_tree_with_context(
                    i,
                    &tid,
                    stack,
                    d1,
                    clone_opt(edge),
                    None,
                    None,
                    lim,
                    Ghost(arena_rank(ev)),
                    Ghost(e.handle as nat),
                );
                one_node(n, Ghost(want))
            },
            IrExprLeaf::LocalVariable(l) => {
                let scope = super::access::scope_of_exec(e);
                let tid = scoped_id(scope.as_str(), "local", *l);
                let ghost want = target_tree(
                    c,
                    spec_scoped_id(super::access::scope_of(ev), "local"@, *l as nat),
                    sv,
                    d1 as nat,
                    ed,
                    None,
                    None,
                    lim as nat,
                    arena_rank(ev),
                    e.handle as nat,
                );
                let n = build_target_tree_with_context(
                    i,
                    &tid,
                    stack,
                    d1,
                    clone_opt(edge),
                    None,
                    None,
                    lim,
                    Ghost(arena_rank(ev)),
                    Ghost(e.handle as nat),
                );
                one_node(n, Ghost(want))
            },
            IrExprLeaf::CallResult(_) => match call_of_exec(i, e) {
                Some(call) => {
                    let call_edge = Some(call_edge_exec(i, call.function));
                    semantic_operand_dependencies(i, e, &call.arguments, &ranges, &call_edge, env, stack, seen, dstack, d1, lim)
                },
                None => no_nodes(),
            },
            IrExprLeaf::ArrayLength(h) => semantic_operand_dependencies(
                i,
                e,
                &handles1(*h),
                &ranges,
                &op_edge_exec(edge, "arrayLength"),
                env,
                stack,
                seen,
                dstack,
                d1,
                lim,
            ),
            _ => no_nodes(),
        },
        IrExprKind::Compose { components, .. } => semantic_operand_dependencies(
            i,
            e,
            components,
            &ranges,
            &op_edge_exec(edge, "Compose"),
            env,
            stack,
            seen,
            dstack,
            d1,
            lim,
        ),
        IrExprKind::Swizzle { vector, .. } => semantic_operand_dependencies(
            i,
            e,
            &handles1(*vector),
            &ranges,
            &op_edge_exec(edge, "Swizzle"),
            env,
            stack,
            seen,
            dstack,
            d1,
            lim,
        ),
        IrExprKind::Operands { op } => {
            let (ops, op_edge_label) = match op {
                IrExprOp::Access { base, index } => (handles2(*base, *index), op_edge_exec(edge, "Access")),
                IrExprOp::AccessIndex { base, .. } => (handles1(*base), op_edge_exec(edge, "Access")),
                IrExprOp::Splat { value, .. } => (handles1(*value), op_edge_exec(edge, "Splat")),
                IrExprOp::Load { pointer } => (handles1(*pointer), clone_opt(edge)),
                IrExprOp::ImageSample { image, sampler, coordinate, array_index, offset, depth_ref, .. } => {
                    let mut v = handles3(*image, *sampler, *coordinate);
                    push_opt_handle(&mut v, *array_index);
                    push_opt_handle(&mut v, *offset);
                    push_opt_handle(&mut v, *depth_ref);
                    (v, Some(owned("textureSample")))
                },
                IrExprOp::ImageLoad { image, coordinate, array_index, sample, level } => {
                    let mut v = handles2(*image, *coordinate);
                    push_opt_handle(&mut v, *array_index);
                    push_opt_handle(&mut v, *sample);
                    push_opt_handle(&mut v, *level);
                    (v, Some(owned("textureLoad")))
                },
                IrExprOp::ImageQuery { image, .. } => (handles1(*image), Some(owned("textureQuery"))),
                IrExprOp::Unary { op, expr } => (handles1(*expr), op_edge_exec(edge, op.as_str())),
                IrExprOp::Binary { op, left, right } => (handles2(*left, *right), op_edge_exec(edge, op.as_str())),
                IrExprOp::Select { condition, accept, reject } => (
                    handles3(*condition, *accept, *reject),
                    op_edge_exec(edge, "Select"),
                ),
                IrExprOp::Derivative { axis, ctrl, expr } => {
                    let label = concat3(axis.as_str(), "/", ctrl.as_str());
                    (handles1(*expr), op_edge_exec(edge, label.as_str()))
                },
                IrExprOp::Relational { fun, argument } => (handles1(*argument), op_edge_exec(edge, fun.as_str())),
                IrExprOp::Math { fun, arg, arg1, arg2, arg3 } => {
                    let mut v = handles1(*arg);
                    push_opt_handle(&mut v, *arg1);
                    push_opt_handle(&mut v, *arg2);
                    push_opt_handle(&mut v, *arg3);
                    (v, op_edge_exec(edge, fun.as_str()))
                },
                IrExprOp::As { expr, .. } => (handles1(*expr), op_edge_exec(edge, "As")),
                IrExprOp::RayQueryGetIntersection { query, .. } => (
                    handles1(*query),
                    op_edge_exec(edge, "rayQueryGetIntersection"),
                ),
            };
            semantic_operand_dependencies(i, e, &ops, &ranges, &op_edge_label, env, stack, seen, dstack, d1, lim)
        },
    }
}

/// `semantic_operand_dependencies`: the operands `ops` of `current`, each
/// with where it is written among `ranges`.
fn semantic_operand_dependencies<'a>(
    i: &TreeInputs<'a>,
    current: &ExprRef,
    ops: &Vec<usize>,
    ranges: &Vec<(usize, usize)>,
    edge: &Option<String>,
    env: Option<&'a DefinitionEnv>,
    stack: &Vec<String>,
    seen: &Vec<ExprRef>,
    dstack: &Vec<usize>,
    depth: usize,
    lim: usize,
) -> (r: Vec<PassDebugDependencyNode>)
    ensures
        dep_nodes_are(
            r@,
            operand_deps(
                tctx(*i),
                eview(*current),
                ops@,
                0,
                ranges_view(ranges@),
                seq![],
                opt_string(*edge),
                opt_env(env),
                strings_view(stack@),
                seen_view(seen@),
                dstack@,
                depth as nat,
                lim as nat,
            ),
        ),
    decreases topm(strings_view(stack@)), lim as nat, dm(depth as nat), arena_rank(eview(*current)), current.handle as nat, 6nat, 0nat,
{
    let ghost c = tctx(*i);
    let ghost sv = strings_view(stack@);
    let ghost ev = eview(*current);
    let ghost ed = opt_string(*edge);
    let ghost rv = ranges_view(ranges@);
    let ghost sn = seen_view(seen@);
    let ghost total = operand_deps(c, ev, ops@, 0, rv, seq![], ed, opt_env(env), sv, sn, dstack@, depth as nat, lim as nat);
    let mut counts: Vec<(String, usize)> = Vec::new();
    assert(flow_counts(counts@) =~= Seq::<(Seq<char>, usize)>::empty());
    let mut out = no_nodes();
    let ghost mut acc: Seq<DepTree> = seq![];
    let mut j: usize = 0;
    while j < ops.len()
        invariant
            c == tctx(*i),
            sv == strings_view(stack@),
            ev == eview(*current),
            ed == opt_string(*edge),
            rv == ranges_view(ranges@),
            sn == seen_view(seen@),
            j <= ops@.len(),
            dep_nodes_are(out@, acc),
            acc + operand_deps(c, ev, ops@, j as int, rv, flow_counts(counts@), ed, opt_env(env), sv, sn, dstack@, depth as nat, lim as nat)
                == total,
        decreases ops@.len() - j,
    {
        let h = ops[j];
        let operand = super::access::sibling(current, h);
        let ghost before_counts = flow_counts(counts@);
        let o = occurrence_exec(i, ranges, &operand, &mut counts);
        let ghost deps_spec = if h < ev.1 {
            expr_deps(c, (ev.0, h), ed, o, opt_env(env), sv, sn, dstack@, inc(depth as nat), lim as nat)
        } else {
            seq![]
        };
        let deps = if h < current.handle {
            semantic_expr_dependencies_with_hint(i, &operand, edge, o, env, stack, seen, dstack, inc_depth(depth), lim)
        } else {
            no_nodes()
        };
        append_nodes(&mut out, deps, Ghost(acc), Ghost(deps_spec));
        proof {
            let rest = operand_deps(c, ev, ops@, j + 1, rv, flow_counts(counts@), ed, opt_env(env), sv, sn, dstack@, depth as nat, lim as nat);
            assert(operand_deps(c, ev, ops@, j as int, rv, before_counts, ed, opt_env(env), sv, sn, dstack@, depth as nat, lim as nat)
                == deps_spec + rest);
            assert(acc + (deps_spec + rest) =~= (acc + deps_spec) + rest);
            acc = acc + deps_spec;
        }
        j = j + 1;
    }
    assert(acc + Seq::<DepTree>::empty() =~= acc);
    out
}

/// `semantic_expr_dependencies_projected`: what the components `projection`
/// of expression `e` depend on.
fn semantic_expr_dependencies_projected<'a>(
    i: &TreeInputs<'a>,
    e: &ExprRef,
    edge: &Option<String>,
    occ: Option<PassDebugSourceRange>,
    projection: &Vec<u32>,
    env: Option<&'a DefinitionEnv>,
    stack: &Vec<String>,
    seen: &Vec<ExprRef>,
    dstack: &Vec<usize>,
    depth: usize,
    lim: usize,
) -> (r: Vec<PassDebugDependencyNode>)
    ensures
        dep_nodes_are(
            r@,
            projected_deps(
                tctx(*i),
                eview(*e),
                opt_string(*edge),
                occ,
                projection@,
                opt_env(env),
                strings_view(stack@),
                seen_view(seen@),
                dstack@,
                depth as nat,
                lim as nat,
            ),
        ),
    decreases topm(strings_view(stack@)), lim as nat, dm(depth as nat), arena_rank(eview(*e)), e.handle as nat, 10nat, 0nat,
{
    let ghost c = tctx(*i);
    let ghost sv = strings_view(stack@);
    let ghost ev = eview(*e);
    let ghost ed = opt_string(*edge);
    if projection.len() == 0 {
        return no_nodes();
    }
    let eff: Option<&'a DefinitionEnv> = match env {
        Some(v) => Some(v),
        None => expr_env_exec(i, e),
    };
    assert(opt_env(eff) == effective_env(c, opt_env(env), ev));
    match access_path_target(i.m, i.source, i.targets, e, stack) {
        Some(ap) => {
            let ghost apv = super::access::path_view(ap);
            let access = match &ap.projection {
                Some(a) => Some(a),
                None => None,
            };
            assert(match access {
                Some(a) => Some(a@),
                None => None,
            } == apv.projection);
            let tp = combine_access_projection(access, projection);
            if tp.len() == 0 {
                return no_nodes();
            }
            let range = match occ {
                Some(r) => Some(r),
                None => ap.source_range,
            };
            let display = Some(ap.display_label.clone());
            let ghost defs_spec = definition_nodes(
                c,
                apv.target_id,
                ed,
                Some(apv.display_label),
                range,
                Some(tp@),
                opt_env(eff),
                sv,
                seen_view(seen@),
                dstack@,
                inc(depth as nat),
                lim as nat,
                arena_rank(ev),
                e.handle as nat,
            );
            let ghost tree_spec = target_tree(
                c,
                apv.target_id,
                sv,
                inc(depth as nat),
                ed,
                Some(apv.display_label),
                range,
                lim as nat,
                arena_rank(ev),
                e.handle as nat,
            );
            let ghost first_spec = match defs_spec {
                Some(ns) => ns,
                None => seq![tree_spec],
            };
            let tpo = Some(tp);
            let mut first = match definition_nodes_for_target(
                i,
                &ap.target_id,
                edge,
                &display,
                range,
                &tpo,
                eff,
                stack,
                seen,
                dstack,
                inc_depth(depth),
                lim,
                Ghost(arena_rank(ev)),
                Ghost(e.handle as nat),
            ) {
                Some(ns) => ns,
                None => {
                    let n = build_target_tree_with_context(
                        i,
                        &ap.target_id,
                        stack,
                        inc_depth(depth),
                        clone_opt(edge),
                        display,
                        range,
                        lim,
                        Ghost(arena_rank(ev)),
                        Ghost(e.handle as nat),
                    );
                    one_node(n, Ghost(tree_spec))
                },
            };
            let ghost rest_spec = index_deps(
                c,
                ev,
                ed,
                opt_env(eff),
                sv,
                seen_view(seen@),
                dstack@,
                inc(depth as nat),
                lim as nat,
            );
            let rest = access_path_index_dependencies(i, e, edge, eff, stack, seen, dstack, inc_depth(depth), lim);
            append_nodes(&mut first, rest, Ghost(first_spec), Ghost(rest_spec));
            first
        },
        None => {
            match named_expression_target_id(i.m, e) {
                Some(_) => {
                    return semantic_expr_dependencies_with_hint(i, e, edge, occ, env, stack, seen, dstack, inc_depth(depth), lim);
                },
                None => {},
            }
            if depth >= MAX_DEPENDENCY_DEPTH {
                return one_node(leaf_node(owned("[depth limit]")), Ghost(dep_leaf("[depth limit]"@)));
            }
            if contains_ref(seen, e) {
                return no_nodes();
            }
            match expr_at_exec(i.m, e) {
                None => no_nodes(),
                Some(x) => {
                    let inner = push_ref(seen, e);
                    projected_expression_children(i, e, x, edge, occ, projection, env, eff, stack, &inner, dstack, inc_depth(depth), lim)
                },
            }
        },
    }
}


pub open spec fn pairs_view(v: Seq<(usize, Option<Vec<u32>>)>) -> Seq<(usize, Option<Seq<u32>>)> {
    v.map_values(|x: (usize, Option<Vec<u32>>)| (x.0, opt_indices(x.1)))
}

fn no_pairs() -> (r: Vec<(usize, Option<Vec<u32>>)>)
    ensures
        pairs_view(r@) == Seq::<(usize, Option<Seq<u32>>)>::empty(),
{
    let r: Vec<(usize, Option<Vec<u32>>)> = Vec::new();
    assert(pairs_view(r@) =~= Seq::<(usize, Option<Seq<u32>>)>::empty());
    r
}

fn push_pair(v: &mut Vec<(usize, Option<Vec<u32>>)>, h: usize, p: Option<Vec<u32>>)
    ensures
        pairs_view(final(v)@) == pairs_view(old(v)@).push((h, opt_indices(p))),
{
    let ghost before = v@;
    let ghost pv = opt_indices(p);
    v.push((h, p));
    assert(pairs_view(v@) =~= pairs_view(before).push((h, pv)));
}

fn copy_indices(v: &Vec<u32>) -> (r: Vec<u32>)
    ensures
        r@ == v@,
{
    let mut out: Vec<u32> = Vec::new();
    let mut k: usize = 0;
    while k < v.len()
        invariant
            k <= v@.len(),
            out@ == v@.take(k as int),
        decreases v@.len() - k,
    {
        out.push(v[k]);
        assert(v@.take(k + 1) =~= v@.take(k as int).push(v@[k as int]));
        k = k + 1;
    }
    assert(v@.take(k as int) =~= v@);
    out
}

fn push_opt_pair(
    i: &TreeInputs,
    current: &ExprRef,
    v: &mut Vec<(usize, Option<Vec<u32>>)>,
    h: Option<usize>,
    projection: &Vec<u32>,
)
    ensures
        pairs_view(final(v)@) == pairs_view(old(v)@) + opt_pair(tctx(*i), eview(*current), h, projection@),
{
    match h {
        Some(x) => {
            let p = operand_projection_exec(i, current, x, projection);
            push_pair(v, x, p);
            assert(pairs_view(old(v)@).push((x, operand_projection(tctx(*i), eview(*current), x, projection@)))
                =~= pairs_view(old(v)@) + opt_pair(tctx(*i), eview(*current), h, projection@));
        },
        None => {
            assert(pairs_view(old(v)@) + opt_pair(tctx(*i), eview(*current), h, projection@) =~= pairs_view(old(v)@));
        },
    }
}

/// The operations `semantic_expr_dependencies_projected` looks into.
fn projected_expression_children<'a>(
    i: &TreeInputs<'a>,
    e: &ExprRef,
    x: &IrExpression,
    edge: &Option<String>,
    occ: Option<PassDebugSourceRange>,
    projection: &Vec<u32>,
    env: Option<&'a DefinitionEnv>,
    eff: Option<&'a DefinitionEnv>,
    stack: &Vec<String>,
    seen: &Vec<ExprRef>,
    dstack: &Vec<usize>,
    depth: usize,
    lim: usize,
) -> (r: Vec<PassDebugDependencyNode>)
    ensures
        dep_nodes_are(
            r@,
            projected_children(
                tctx(*i),
                eview(*e),
                *x,
                opt_string(*edge),
                occ,
                projection@,
                opt_env(env),
                opt_env(eff),
                strings_view(stack@),
                seen_view(seen@),
                dstack@,
                depth as nat,
                lim as nat,
            ),
        ),
    decreases topm(strings_view(stack@)), lim as nat, dm(depth as nat), arena_rank(eview(*e)), e.handle as nat, 9nat, 0nat,
{
    let ghost c = tctx(*i);
    let ghost sv = strings_view(stack@);
    let ghost ev = eview(*e);
    let ghost ed = opt_string(*edge);
    let ghost sn = seen_view(seen@);
    let ranges = search_ranges_exec(i, e);
    let ghost rv = ranges_view(ranges@);
    match &x.kind {
        IrExprKind::Compose { components, .. } => projected_compose_dependencies(
            i,
            e,
            components,
            &ranges,
            &op_edge_exec(edge, "Compose"),
            projection,
            eff,
            stack,
            seen,
            dstack,
            depth,
            lim,
        ),
        IrExprKind::Operands { op } => match op {
            IrExprOp::Splat { value, .. } => {
                let mut ops = no_pairs();
                push_pair(&mut ops, *value, None);
                assert(pairs_view(ops@) =~= seq![(*value, None::<Seq<u32>>)]);
                projected_operand_dependencies(i, e, &ops, &ranges, &op_edge_exec(edge, "Splat"), eff, stack, seen, dstack, depth, lim)
            },
            IrExprOp::Binary { op, left, right } => {
                let mut ops = no_pairs();
                push_pair(&mut ops, *left, operand_projection_exec(i, e, *left, projection));
                push_pair(&mut ops, *right, operand_projection_exec(i, e, *right, projection));
                assert(pairs_view(ops@) =~= seq![
                    (*left, operand_projection(c, ev, *left, projection@)),
                    (*right, operand_projection(c, ev, *right, projection@)),
                ]);
                projected_operand_dependencies(i, e, &ops, &ranges, &op_edge_exec(edge, op.as_str()), eff, stack, seen, dstack, depth, lim)
            },
            IrExprOp::Unary { op, expr } => {
                let mut ops = no_pairs();
                push_pair(&mut ops, *expr, Some(copy_indices(projection)));
                assert(pairs_view(ops@) =~= seq![(*expr, Some(projection@))]);
                projected_operand_dependencies(i, e, &ops, &ranges, &op_edge_exec(edge, op.as_str()), eff, stack, seen, dstack, depth, lim)
            },
            IrExprOp::As { expr, .. } => {
                let mut ops = no_pairs();
                push_pair(&mut ops, *expr, Some(copy_indices(projection)));
                assert(pairs_view(ops@) =~= seq![(*expr, Some(projection@))]);
                projected_operand_dependencies(i, e, &ops, &ranges, &op_edge_exec(edge, "As"), eff, stack, seen, dstack, depth, lim)
            },
            IrExprOp::Derivative { axis, ctrl, expr } => {
                let mut ops = no_pairs();
                push_pair(&mut ops, *expr, Some(copy_indices(projection)));
                assert(pairs_view(ops@) =~= seq![(*expr, Some(projection@))]);
                let label = concat3(axis.as_str(), "/", ctrl.as_str());
                projected_operand_dependencies(i, e, &ops, &ranges, &op_edge_exec(edge, label.as_str()), eff, stack, seen, dstack, depth, lim)
            },
            IrExprOp::Math { fun, arg, arg1, arg2, arg3 } => {
                let mut ops = no_pairs();
                push_pair(&mut ops, *arg, operand_projection_exec(i, e, *arg, projection));
                assert(pairs_view(ops@) =~= seq![(*arg, operand_projection(c, ev, *arg, projection@))]);
                push_opt_pair(i, e, &mut ops, *arg1, projection);
                push_opt_pair(i, e, &mut ops, *arg2, projection);
                push_opt_pair(i, e, &mut ops, *arg3, projection);
                projected_operand_dependencies(i, e, &ops, &ranges, &op_edge_exec(edge, fun.as_str()), eff, stack, seen, dstack, depth, lim)
            },
            IrExprOp::Select { condition, accept, reject } => {
                let mut first_ops = no_pairs();
                push_pair(&mut first_ops, *condition, None);
                assert(pairs_view(first_ops@) =~= seq![(*condition, None::<Seq<u32>>)]);
                let mut ops = no_pairs();
                push_pair(&mut ops, *accept, operand_projection_exec(i, e, *accept, projection));
                push_pair(&mut ops, *reject, operand_projection_exec(i, e, *reject, projection));
                assert(pairs_view(ops@) =~= seq![
                    (*accept, operand_projection(c, ev, *accept, projection@)),
                    (*reject, operand_projection(c, ev, *reject, projection@)),
                ]);
                let edge_label = op_edge_exec(edge, "Select");
                let ghost a_spec = projected_operand_deps(c, ev, pairs_view(first_ops@), 0, rv, seq![], opt_string(edge_label), opt_env(eff), sv, sn, dstack@, depth as nat, lim as nat);
                let ghost b_spec = projected_operand_deps(c, ev, pairs_view(ops@), 0, rv, seq![], opt_string(edge_label), opt_env(eff), sv, sn, dstack@, depth as nat, lim as nat);
                let mut out = projected_operand_dependencies(i, e, &first_ops, &ranges, &edge_label, eff, stack, seen, dstack, depth, lim);
                let rest = projected_operand_dependencies(i, e, &ops, &ranges, &edge_label, eff, stack, seen, dstack, depth, lim);
                append_nodes(&mut out, rest, Ghost(a_spec), Ghost(b_spec));
                out
            },
            _ => semantic_expr_dependencies_with_hint(i, e, edge, occ, env, stack, seen, dstack, depth, lim),
        },
        IrExprKind::Leaf { leaf: IrExprLeaf::CallResult(_), .. } => match call_of_exec(i, e) {
            Some(call) => {
                let ghost args = call.arguments@;
                let mut ops = no_pairs();
                let mut k: usize = 0;
                while k < call.arguments.len()
                    invariant
                        c == tctx(*i),
                        ev == eview(*e),
                        args == call.arguments@,
                        k <= args.len(),
                        pairs_view(ops@) == projected_arguments(c, ev, args, projection@).take(k as int),
                    decreases args.len() - k,
                {
                    let a = call.arguments[k];
                    push_pair(&mut ops, a, operand_projection_exec(i, e, a, projection));
                    assert(projected_arguments(c, ev, args, projection@).take(k + 1) =~= projected_arguments(
                        c,
                        ev,
                        args,
                        projection@,
                    ).take(k as int).push((a, operand_projection(c, ev, a, projection@))));
                    k = k + 1;
                }
                assert(projected_arguments(c, ev, args, projection@).take(k as int) =~= projected_arguments(c, ev, args, projection@));
                let call_edge = call_edge_exec(i, call.function);
                projected_operand_dependencies(i, e, &ops, &ranges, &op_edge_exec(edge, call_edge.as_str()), eff, stack, seen, dstack, depth, lim)
            },
            None => no_nodes(),
        },
        _ => semantic_expr_dependencies_with_hint(i, e, edge, occ, env, stack, seen, dstack, depth, lim),
    }
}

/// Offsets of composite components are tracked up to this bound: past it
/// no component of a projection (a `u32`) can be selected.
pub const OFFSET_CAP: u64 = 0x100_0000_0000;

proof fn lemma_select_in_high(p: Seq<u32>, off: int, w: int)
    requires
        off > u32::MAX,
    ensures
        select_in(p, off, w) == Seq::<u32>::empty(),
    decreases p.len(),
{
    if p.len() > 0 {
        lemma_select_in_high(p.drop_last(), off, w);
    }
}

fn select_in_exec(p: &Vec<u32>, off: u64, w: u64) -> (r: Vec<u32>)
    requires
        off <= OFFSET_CAP,
        w <= u32::MAX,
    ensures
        r@ == select_in(p@, off as int, w as int),
{
    let mut out: Vec<u32> = Vec::new();
    let mut k: usize = 0;
    while k < p.len()
        invariant
            off <= OFFSET_CAP,
            w <= u32::MAX,
            k <= p@.len(),
            out@ == select_in(p@.take(k as int), off as int, w as int),
        decreases p@.len() - k,
    {
        assert(p@.take(k + 1).drop_last() =~= p@.take(k as int));
        let x = p[k] as u64;
        if off <= x && x < off + w {
            out.push((x - off) as u32);
        }
        k = k + 1;
    }
    assert(p@.take(k as int) =~= p@);
    out
}

/// `projected_compose_dependencies`: the components of a composite, each
/// followed with the part of `projection` it produces.
fn projected_compose_dependencies<'a>(
    i: &TreeInputs<'a>,
    current: &ExprRef,
    comps: &Vec<usize>,
    ranges: &Vec<(usize, usize)>,
    edge: &Option<String>,
    projection: &Vec<u32>,
    env: Option<&'a DefinitionEnv>,
    stack: &Vec<String>,
    seen: &Vec<ExprRef>,
    dstack: &Vec<usize>,
    depth: usize,
    lim: usize,
) -> (r: Vec<PassDebugDependencyNode>)
    ensures
        dep_nodes_are(
            r@,
            compose_deps(
                tctx(*i),
                eview(*current),
                comps@,
                0,
                0,
                ranges_view(ranges@),
                seq![],
                opt_string(*edge),
                projection@,
                opt_env(env),
                strings_view(stack@),
                seen_view(seen@),
                dstack@,
                depth as nat,
                lim as nat,
            ),
        ),
    decreases topm(strings_view(stack@)), lim as nat, dm(depth as nat), arena_rank(eview(*current)), current.handle as nat, 6nat, 0nat,
{
    let ghost c = tctx(*i);
    let ghost sv = strings_view(stack@);
    let ghost ev = eview(*current);
    let ghost ed = opt_string(*edge);
    let ghost rv = ranges_view(ranges@);
    let ghost sn = seen_view(seen@);
    let ghost pv = projection@;
    let ghost total = compose_deps(c, ev, comps@, 0, 0, rv, seq![], ed, pv, opt_env(env), sv, sn, dstack@, depth as nat, lim as nat);
    let mut counts: Vec<(String, usize)> = Vec::new();
    assert(flow_counts(counts@) =~= Seq::<(Seq<char>, usize)>::empty());
    let mut out = no_nodes();
    let ghost mut acc: Seq<DepTree> = seq![];
    let mut offset: u64 = 0;
    let ghost mut off_spec: int = 0;
    let mut j: usize = 0;
    while j < comps.len()
        invariant
            c == tctx(*i),
            sv == strings_view(stack@),
            ev == eview(*current),
            ed == opt_string(*edge),
            rv == ranges_view(ranges@),
            sn == seen_view(seen@),
            pv == projection@,
            j <= comps@.len(),
            off_spec >= 0,
            offset as int == (if off_spec >= OFFSET_CAP {
                OFFSET_CAP as int
            } else {
                off_spec
            }),
            dep_nodes_are(out@, acc),
            acc + compose_deps(c, ev, comps@, j as int, off_spec, rv, flow_counts(counts@), ed, pv, opt_env(env), sv, sn, dstack@, depth as nat, lim as nat)
                == total,
        decreases comps@.len() - j,
    {
        let h = comps[j];
        let operand = super::access::sibling(current, h);
        let w0 = expression_component_count(i.m, &i.flow.calls, &operand);
        let width: u64 = (if w0 < 1 {
            1
        } else {
            w0
        }) as u32 as u64;
        assert(width as int == component_width(c, (ev.0, h)));
        let sel = select_in_exec(projection, offset, width);
        proof {
            if off_spec >= OFFSET_CAP {
                lemma_select_in_high(pv, off_spec, width as int);
                lemma_select_in_high(pv, offset as int, width as int);
            }
        }
        assert(sel@ == select_in(pv, off_spec, width as int));
        let ghost before_counts = flow_counts(counts@);
        let ghost o_spec = occurrence(c, rv, (ev.0, h), before_counts).0;
        let ghost deps_spec = if sel@.len() == 0 {
            seq![]
        } else if h < ev.1 {
            if width > 1 && sel@.len() < width {
                projected_deps(c, (ev.0, h), ed, o_spec, spec_dedupe(sel@), opt_env(env), sv, sn, dstack@, inc(depth as nat), lim as nat)
            } else {
                expr_deps(c, (ev.0, h), ed, o_spec, opt_env(env), sv, sn, dstack@, inc(depth as nat), lim as nat)
            }
        } else {
            seq![]
        };
        let deps = if sel.len() == 0 {
            no_nodes()
        } else {
            let o = occurrence_exec(i, ranges, &operand, &mut counts);
            if h < current.handle {
                if width > 1 && (sel.len() as u64) < width {
                    let child = dedupe_projection(sel);
                    semantic_expr_dependencies_projected(i, &operand, edge, o, &child, env, stack, seen, dstack, inc_depth(depth), lim)
                } else {
                    semantic_expr_dependencies_with_hint(i, &operand, edge, o, env, stack, seen, dstack, inc_depth(depth), lim)
                }
            } else {
                no_nodes()
            }
        };
        append_nodes(&mut out, deps, Ghost(acc), Ghost(deps_spec));
        proof {
            let rest = compose_deps(
                c,
                ev,
                comps@,
                j + 1,
                off_spec + width,
                rv,
                flow_counts(counts@),
                ed,
                pv,
                opt_env(env),
                sv,
                sn,
                dstack@,
                depth as nat,
                lim as nat,
            );
            assert(compose_deps(c, ev, comps@, j as int, off_spec, rv, before_counts, ed, pv, opt_env(env), sv, sn, dstack@, depth as nat, lim as nat)
                == deps_spec + rest);
            assert(acc + (deps_spec + rest) =~= (acc + deps_spec) + rest);
            acc = acc + deps_spec;
            off_spec = off_spec + width;
        }
        offset = if offset + width > OFFSET_CAP {
            OFFSET_CAP
        } else {
            offset + width
        };
        j = j + 1;
    }
    assert(acc + Seq::<DepTree>::empty() =~= acc);
    out
}

/// `projected_operand_dependencies`: the operands `ops` of `current`, each
/// followed with its projection when it has a nonempty one.
fn projected_operand_dependencies<'a>(
    i: &TreeInputs<'a>,
    current: &ExprRef,
    ops: &Vec<(usize, Option<Vec<u32>>)>,
    ranges: &Vec<(usize, usize)>,
    edge: &Option<String>,
    env: Option<&'a DefinitionEnv>,
    stack: &Vec<String>,
    seen: &Vec<ExprRef>,
    dstack: &Vec<usize>,
    depth: usize,
    lim: usize,
) -> (r: Vec<PassDebugDependencyNode>)
    ensures
        dep_nodes_are(
            r@,
            projected_operand_deps(
                tctx(*i),
                eview(*current),
                pairs_view(ops@),
                0,
                ranges_view(ranges@),
                seq![],
                opt_string(*edge),
                opt_env(env),
                strings_view(stack@),
                seen_view(seen@),
                dstack@,
                depth as nat,
                lim as nat,
            ),
        ),
    decreases topm(strings_view(stack@)), lim as nat, dm(depth as nat), arena_rank(eview(*current)), current.handle as nat, 6nat, 0nat,
{
    let ghost c = tctx(*i);
    let ghost sv = strings_view(stack@);
    let ghost ev = eview(*current);
    let ghost ed = opt_string(*edge);
    let ghost rv = ranges_view(ranges@);
    let ghost sn = seen_view(seen@);
    let ghost ov = pairs_view(ops@);
    let ghost total = projected_operand_deps(c, ev, ov, 0, rv, seq![], ed, opt_env(env), sv, sn, dstack@, depth as nat, lim as nat);
    let mut counts: Vec<(String, usize)> = Vec::new();
    assert(flow_counts(counts@) =~= Seq::<(Seq<char>, usize)>::empty());
    let mut out = no_nodes();
    let ghost mut acc: Seq<DepTree> = seq![];
    let mut j: usize = 0;
    while j < ops.len()
        invariant
            c == tctx(*i),
            sv == strings_view(stack@),
            ev == eview(*current),
            ed == opt_string(*edge),
            rv == ranges_view(ranges@),
            sn == seen_view(seen@),
            ov == pairs_view(ops@),
            j <= ops@.len(),
            dep_nodes_are(out@, acc),
            acc + projected_operand_deps(c, ev, ov, j as int, rv, flow_counts(counts@), ed, opt_env(env), sv, sn, dstack@, depth as nat, lim as nat)
                == total,
        decreases ops@.len() - j,
    {
        let h = ops[j].0;
        assert(ov[j as int] == (h, opt_indices(ops@[j as int].1)));
        let operand = super::access::sibling(current, h);
        let ghost before_counts = flow_counts(counts@);
        let o = occurrence_exec(i, ranges, &operand, &mut counts);
        let ghost deps_spec = if h < ev.1 {
            match ov[j as int].1 {
                Some(p) => if p.len() > 0 {
                    projected_deps(c, (ev.0, h), ed, o, p, opt_env(env), sv, sn, dstack@, inc(depth as nat), lim as nat)
                } else {
                    expr_deps(c, (ev.0, h), ed, o, opt_env(env), sv, sn, dstack@, inc(depth as nat), lim as nat)
                },
                None => expr_deps(c, (ev.0, h), ed, o, opt_env(env), sv, sn, dstack@, inc(depth as nat), lim as nat),
            }
        } else {
            seq![]
        };
        let deps = if h < current.handle {
            match &ops[j].1 {
                Some(p) => if p.len() > 0 {
                    semantic_expr_dependencies_projected(i, &operand, edge, o, p, env, stack, seen, dstack, inc_depth(depth), lim)
                } else {
                    semantic_expr_dependencies_with_hint(i, &operand, edge, o, env, stack, seen, dstack, inc_depth(depth), lim)
                },
                None => semantic_expr_dependencies_with_hint(i, &operand, edge, o, env, stack, seen, dstack, inc_depth(depth), lim),
            }
        } else {
            no_nodes()
        };
        append_nodes(&mut out, deps, Ghost(acc), Ghost(deps_spec));
        proof {
            let rest = projected_operand_deps(c, ev, ov, j + 1, rv, flow_counts(counts@), ed, opt_env(env), sv, sn, dstack@, depth as nat, lim as nat);
            assert(projected_operand_deps(c, ev, ov, j as int, rv, before_counts, ed, opt_env(env), sv, sn, dstack@, depth as nat, lim as nat)
                == deps_spec + rest);
            assert(acc + (deps_spec + rest) =~= (acc + deps_spec) + rest);
            acc = acc + deps_spec;
        }
        j = j + 1;
    }
    assert(acc + Seq::<DepTree>::empty() =~= acc);
    out
}


// ---------------------------------------------------------------------------
// The trees of a module
// ---------------------------------------------------------------------------

/// The tree of target `tid` as a root: built from depth 0 with nothing on
/// the stacks, every recorded definition open to expansion.
pub open spec fn root_tree(c: TreeCtx, tid: Seq<char>) -> DepTree {
    target_tree(c, tid, seq![], 0, None, None, None, c.flow.definitions@.len(), 0, 0)
}

/// Entry `k` of `trees` is the id of the `k`-th target of `c` and its tree.
pub open spec fn tree_entry(trees: Seq<(String, PassDebugDependencyNode)>, c: TreeCtx, k: int) -> bool {
    trees[k].0@ == c.known[k].id && dep_node_is(trees[k].1, root_tree(c, c.known[k].id))
}

/// `trees` holds, for each target of `c` in order, its id and its tree.
pub open spec fn trees_are(trees: Seq<(String, PassDebugDependencyNode)>, c: TreeCtx) -> bool {
    &&& trees.len() == c.known.len()
    &&& forall|k: int| 0 <= k < trees.len() ==> #[trigger] tree_entry(trees, c, k)
}

/// The context of the trees of module `m` (source bytes `b`) with targets
/// `known`, over the definition walk `flow` and the definitions `finals`
/// that reach the end of a body.
pub open spec fn module_ctx(
    m: ShaderModule,
    b: Seq<u8>,
    known: Seq<TargetSpec>,
    flow: DefinitionFlow,
    finals: DefinitionEnv,
) -> TreeCtx {
    TreeCtx { m, b, known, flow, finals }
}

/// `trees` are the trees of the targets `known` of module `m`, built over the
/// definition walk of `m`.
pub open spec fn module_trees(trees: Seq<(String, PassDebugDependencyNode)>, m: ShaderModule, b: Seq<u8>, known: Seq<TargetSpec>) -> bool {
    exists|flow: DefinitionFlow, finals: DefinitionEnv|
        (super::flow::flow_view(flow), super::flow::env_view(finals)) == super::flow::spec_definition_flow(b, m)
            && #[trigger] trees_are(trees, module_ctx(m, b, known, flow, finals))
}

/// `build_target_tree`: the tree of target `tid` as a root.
pub fn build_target_tree(i: &TreeInputs, tid: &String) -> (r: PassDebugDependencyNode)
    ensures
        dep_node_is(r, root_tree(tctx(*i), tid@)),
{
    let stack: Vec<String> = Vec::new();
    assert(strings_view(stack@) =~= Seq::<Seq<char>>::empty());
    build_target_tree_with_context(i, tid, &stack, 0, None, None, None, i.flow.definitions.len(), Ghost(0), Ghost(0))
}

/// The trees of all targets of `i`, in the targets' order, each with the
/// target's id.
pub fn build_dependency_trees(i: &TreeInputs) -> (r: Vec<(String, PassDebugDependencyNode)>)
    ensures
        trees_are(r@, tctx(*i)),
{
    let ghost c = tctx(*i);
    let mut out: Vec<(String, PassDebugDependencyNode)> = Vec::new();
    let mut k: usize = 0;
    while k < i.targets.len()
        invariant
            c == tctx(*i),
            c.known.len() == i.targets@.len(),
            k <= i.targets@.len(),
            out@.len() == k,
            forall|q: int| 0 <= q < k ==> #[trigger] tree_entry(out@, c, q),
        decreases i.targets@.len() - k,
    {
        let id = &i.targets[k].id;
        assert(c.known[k as int].id == id@);
        let tree = build_target_tree(i, id);
        let ghost before = out@;
        assert(dep_node_is(tree, root_tree(c, c.known[k as int].id)));
        let idc = id.clone();
        assert(idc@ == c.known[k as int].id);
        out.push((idc, tree));
        assert(out@[k as int].1 == tree);
        assert(dep_node_is(out@[k as int].1, root_tree(c, c.known[k as int].id)));
        assert forall|q: int| 0 <= q < k + 1 implies #[trigger] tree_entry(out@, c, q) by {
            if q < k {
                assert(tree_entry(before, c, q));
                assert(out@[q] == before[q]);
            }
        }
        k = k + 1;
    }
    out
}

/// The trees of the targets `targets` of module `m`, built over the
/// definition walk of `m`.
pub fn dependency_trees(m: &ShaderModule, source: &str, targets: &Vec<PassDebugDependencyTarget>) -> (r: Vec<
    (String, PassDebugDependencyNode),
>)
    ensures
        module_trees(r@, *m, source.spec_bytes(), tviews(targets@)),
{
    let (flow, finals) = super::flow::index_definitions(m, source);
    let i = TreeInputs { m, source, targets, flow: &flow, finals: &finals };
    let r = build_dependency_trees(&i);
    assert(tctx(i) == module_ctx(*m, source.spec_bytes(), tviews(targets@), flow, finals));
    assert(trees_are(r@, module_ctx(*m, source.spec_bytes(), tviews(targets@), flow, finals)));
    r
}


// ---------------------------------------------------------------------------
// Laws
// ---------------------------------------------------------------------------

/// The tree of a target whose kind is known is that target's own node: it
/// carries the target's id and its node label (`<label> (<kind>)`), is not
/// a reference, has no edge label, display label or source range, and lists
/// at least one child (`[source] no contributors` when nothing contributes).
pub proof fn lemma_root_tree_is_the_target(c: TreeCtx, tid: Seq<char>)
    requires
        known_target(c.known, tid) is Some,
        kind_of(c, known_target(c.known, tid)->0) is Some,
    ensures
        root_tree(c, tid).target_id == Some(tid),
        !root_tree(c, tid).reference,
        root_tree(c, tid).children.len() > 0,
        root_tree(c, tid).edge_label is None,
        root_tree(c, tid).display_label is None,
        root_tree(c, tid).source_range is None,
        root_tree(c, tid).definition_source_range is None,
        root_tree(c, tid).label == known_target(c.known, tid)->0.label + " ("@ + known_target(c.known, tid)->0.kind
            + ")"@,
{
    let i = choose|i: int| first_at(super::dependency::target_ids(c.known), tid, i);
    assert(super::dependency::target_ids(c.known)[i] == tid);
}

/// A target that is not among the targets has, as its tree, a single
/// `missing target` leaf.
pub proof fn lemma_unknown_target_tree(c: TreeCtx, tid: Seq<char>)
    requires
        known_target(c.known, tid) is None,
    ensures
        root_tree(c, tid) == dep_leaf("missing target "@ + tid),
{
}

/// The returns of `scope` among the first `k` lie below `k` and belong to
/// `scope`.
proof fn lemma_return_indices_in_range(rs: Seq<ReturnDependency>, scope: Seq<char>, k: int)
    requires
        0 <= k <= rs.len(),
    ensures
        return_indices(rs, scope, k).len() <= k,
        forall|j: int|
            0 <= j < return_indices(rs, scope, k).len() ==> 0 <= #[trigger] return_indices(rs, scope, k)[j] < k
                && rs[return_indices(rs, scope, k)[j]].scope@ == scope,
    decreases k,
{
    if k > 0 {
        lemma_return_indices_in_range(rs, scope, k - 1);
    }
}

/// Each of the first `k` condition nodes is labelled by its condition,
/// with ` [no variable dependencies]` when nothing feeds it.
proof fn lemma_control_nodes_labels(
    c: TreeCtx,
    scope: Seq<char>,
    controls: Seq<ControlDependency>,
    k: int,
    stack: Seq<Seq<char>>,
    depth: nat,
    lim: nat,
)
    requires
        0 <= k <= controls.len(),
    ensures
        control_nodes(c, scope, controls, k, stack, depth, lim).len() == k,
        forall|i: int|
            0 <= i < k ==> (#[trigger] control_nodes(c, scope, controls, k, stack, depth, lim)[i]).label
                == controls[i].label@ || control_nodes(c, scope, controls, k, stack, depth, lim)[i].label
                == controls[i].label@ + " [no variable dependencies]"@,
    decreases k,
{
    if k > 0 {
        lemma_control_nodes_labels(c, scope, controls, k - 1, stack, depth, lim);
        let prev = control_nodes(c, scope, controls, k - 1, stack, depth, lim);
        let ctl = controls[k - 1];
        let last = relation_node(c, (Some(scope), ctl.expr), ctl.label@, ctl.env, stack, inc(depth), lim);
        assert(control_nodes(c, scope, controls, k, stack, depth, lim) == prev.push(last));
        assert forall|i: int| 0 <= i < k implies (#[trigger] control_nodes(c, scope, controls, k, stack, depth, lim)[i]).label
            == controls[i].label@ || control_nodes(c, scope, controls, k, stack, depth, lim)[i].label
            == controls[i].label@ + " [no variable dependencies]"@ by {
            if i < k - 1 {
                assert(prev.push(last)[i] == prev[i]);
            }
        }
    }
}

/// The first `k` return nodes: node `q` is `[return q] <scope>` and its
/// children begin with the condition nodes of the `q`-th return.
proof fn lemma_return_fold_nodes(
    c: TreeCtx,
    scope: Seq<char>,
    idx: Seq<int>,
    k: int,
    stack: Seq<Seq<char>>,
    depth: nat,
    lim: nat,
)
    requires
        0 <= k <= idx.len(),
        forall|j: int| 0 <= j < idx.len() ==> 0 <= #[trigger] idx[j] < c.flow.returns@.len(),
    ensures
        return_fold(c, scope, idx, k, stack, depth, lim).len() == k,
        forall|q: int|
            0 <= q < k ==> {
                let node = #[trigger] return_fold(c, scope, idx, k, stack, depth, lim)[q];
                let ctls = c.flow.returns@[idx[q]].controls@;
                &&& node.label == "[return "@ + spec_decimal(q as nat) + "] "@ + scope
                &&& node.children.len() >= ctls.len()
                &&& forall|i: int|
                    0 <= i < ctls.len() ==> node.children[i] == control_nodes(
                        c,
                        scope,
                        ctls,
                        ctls.len() as int,
                        stack,
                        inc(depth),
                        lim,
                    )[i]
            },
    decreases k,
{
    if k > 0 {
        lemma_return_fold_nodes(c, scope, idx, k - 1, stack, depth, lim);
        let i = idx[k - 1];
        let ctls = c.flow.returns@[i].controls@;
        let controls = control_nodes(c, scope, ctls, ctls.len() as int, stack, inc(depth), lim);
        lemma_control_nodes_labels(c, scope, ctls, ctls.len() as int, stack, inc(depth), lim);
        let prev = return_fold(c, scope, idx, k - 1, stack, depth, lim);
        let all = return_fold(c, scope, idx, k, stack, depth, lim);
        let last = all[k - 1];
        assert(all == prev.push(last));
        assert forall|q: int| 0 <= q < k - 1 implies #[trigger] all[q] == prev[q] by {}
    }
}

/// In the tree of a return target whose scope has several returns, or one
/// return governed by a condition, the root has one `[return q] <scope>`
/// child for the `q`-th return of that scope, and the children of each
/// begin with one node per condition that governs that return, in order,
/// labelled by the condition (followed by ` [no variable dependencies]`
/// when nothing feeds the condition).
pub proof fn lemma_return_tree_lists_conditions(c: TreeCtx, tid: Seq<char>, scope: Seq<char>)
    requires
        known_target(c.known, tid) is Some,
        kind_of(c, known_target(c.known, tid)->0) == Some(KindView::Return(scope)),
        scope_returns_of(c, scope).len() > 1 || (scope_returns_of(c, scope).len() == 1
            && c.flow.returns@[scope_returns_of(c, scope)[0]].controls@.len() > 0),
    ensures
        root_tree(c, tid).children.len() == scope_returns_of(c, scope).len(),
        forall|q: int|
            0 <= q < scope_returns_of(c, scope).len() ==> {
                let node = #[trigger] root_tree(c, tid).children[q];
                let ret = c.flow.returns@[scope_returns_of(c, scope)[q]];
                &&& ret.scope@ == scope
                &&& node.label == "[return "@ + spec_decimal(q as nat) + "] "@ + scope
                &&& node.children.len() >= ret.controls@.len()
                &&& forall|i: int|
                    0 <= i < ret.controls@.len() ==> (#[trigger] node.children[i]).label == ret.controls@[i].label@
                        || node.children[i].label == ret.controls@[i].label@ + " [no variable dependencies]"@
            },
{
    let rs = c.flow.returns@;
    let idx = scope_returns_of(c, scope);
    let lim = c.flow.definitions@.len();
    let inner = seq![tid];
    lemma_return_indices_in_range(rs, scope, rs.len() as int);
    lemma_return_fold_nodes(c, scope, idx, idx.len() as int, inner, inc(0), lim);
    let kids = return_fold(c, scope, idx, idx.len() as int, inner, inc(0), lim);
    assert(Seq::<Seq<char>>::empty().push(tid) == inner);
    assert(return_children(c, scope, inner, inc(0), lim) == kids);
    assert(root_tree(c, tid).children == kids);
    assert forall|q: int| 0 <= q < idx.len() implies {
        let node = #[trigger] root_tree(c, tid).children[q];
        let ret = c.flow.returns@[idx[q]];
        &&& ret.scope@ == scope
        &&& node.label == "[return "@ + spec_decimal(q as nat) + "] "@ + scope
        &&& node.children.len() >= ret.controls@.len()
        &&& forall|i: int|
            0 <= i < ret.controls@.len() ==> (#[trigger] node.children[i]).label == ret.controls@[i].label@
                || node.children[i].label == ret.controls@[i].label@ + " [no variable dependencies]"@
    } by {
        let ret = rs[idx[q]];
        let ctls = ret.controls@;
        assert(kids[q] == root_tree(c, tid).children[q]);
        lemma_control_nodes_labels(c, scope, ctls, ctls.len() as int, inner, inc(inc(0)), lim);
        assert forall|i: int| 0 <= i < ctls.len() implies (#[trigger] kids[q].children[i]).label == ctls[i].label@
            || kids[q].children[i].label == ctls[i].label@ + " [no variable dependencies]"@ by {
            assert(kids[q].children[i] == control_nodes(c, scope, ctls, ctls.len() as int, inner, inc(inc(0)), lim)[i]);
        }
    }
}


// ---------------------------------------------------------------------------
// Other targets appear as references
// ---------------------------------------------------------------------------

/// Node `t` shows a target other than `r`, when it is one of the targets,
/// only as a reference, and a reference has no children.
pub open spec fn shows_others_as_references(c: TreeCtx, r: Seq<char>, t: DepTree) -> bool {
    &&& match t.target_id {
        Some(x) => (x != r && known_target(c.known, x) is Some) ==> (t.reference && t.children.len() == 0),
        None => true,
    }
    &&& t.reference ==> t.children.len() == 0
}

/// Every node of `t` shows targets other than `r` only as references.
pub open spec fn refs_tree(c: TreeCtx, r: Seq<char>, t: DepTree) -> bool
    decreases t, 1int,
{
    shows_others_as_references(c, r, t) && refs_prefix(c, r, t.children, t.children.len() as int)
}

/// The first `k` trees of `ts` satisfy `refs_tree`.
pub open spec fn refs_prefix(c: TreeCtx, r: Seq<char>, ts: Seq<DepTree>, k: int) -> bool
    decreases ts, 0int, k,
{
    if k <= 0 {
        true
    } else {
        refs_prefix(c, r, ts, k - 1) && (k - 1 < ts.len() ==> refs_tree(c, r, ts[k - 1]))
    }
}

/// Every tree of `ts` shows targets other than `r` only as references.
pub open spec fn refs_all(c: TreeCtx, r: Seq<char>, ts: Seq<DepTree>) -> bool {
    forall|i: int| 0 <= i < ts.len() ==> #[trigger] refs_tree(c, r, ts[i])
}

proof fn lemma_refs_all_prefix(c: TreeCtx, r: Seq<char>, ts: Seq<DepTree>, k: int)
    requires
        refs_all(c, r, ts),
    ensures
        refs_prefix(c, r, ts, k),
    decreases k,
{
    if k > 0 {
        lemma_refs_all_prefix(c, r, ts, k - 1);
        if k - 1 < ts.len() {
            assert(refs_tree(c, r, ts[k - 1]));
        }
    }
}

proof fn lemma_refs_node(c: TreeCtx, r: Seq<char>, t: DepTree)
    requires
        shows_others_as_references(c, r, t),
        refs_all(c, r, t.children),
    ensures
        refs_tree(c, r, t),
{
    lemma_refs_all_prefix(c, r, t.children, t.children.len() as int);
}

proof fn lemma_refs_concat(c: TreeCtx, r: Seq<char>, a: Seq<DepTree>, b: Seq<DepTree>)
    requires
        refs_all(c, r, a),
        refs_all(c, r, b),
    ensures
        refs_all(c, r, a + b),
{
    assert forall|i: int| 0 <= i < (a + b).len() implies #[trigger] refs_tree(c, r, (a + b)[i]) by {
        if i < a.len() {
            assert((a + b)[i] == a[i]);
        } else {
            assert((a + b)[i] == b[i - a.len()]);
        }
    }
}

proof fn lemma_refs_one(c: TreeCtx, r: Seq<char>, t: DepTree)
    requires
        refs_tree(c, r, t),
    ensures
        refs_all(c, r, seq![t]),
{
    assert(seq![t][0] == t);
}

proof fn lemma_refs_leaf(c: TreeCtx, r: Seq<char>, t: DepTree)
    requires
        t.children.len() == 0,
        shows_others_as_references(c, r, t),
    ensures
        refs_tree(c, r, t),
        refs_all(c, r, seq![t]),
{
    lemma_refs_node(c, r, t);
    lemma_refs_one(c, r, t);
}

proof fn lemma_refs_no_contributors(c: TreeCtx, r: Seq<char>, ts: Seq<DepTree>)
    requires
        refs_all(c, r, ts),
    ensures
        refs_all(c, r, no_contributors(ts)),
{
    if ts.len() == 0 {
        lemma_refs_leaf(c, r, dep_leaf("[source] no contributors"@));
    }
}

proof fn lemma_refs_target_reference(
    c: TreeCtx,
    r: Seq<char>,
    tid: Seq<char>,
    edge: Option<Seq<char>>,
    display: Option<Seq<char>>,
    range: Option<PassDebugSourceRange>,
    def_range: Option<PassDebugSourceRange>,
)
    requires
        target_reference(c, tid, edge, display, range, def_range) is Some,
    ensures
        refs_tree(c, r, target_reference(c, tid, edge, display, range, def_range)->0),
        refs_all(c, r, seq![target_reference(c, tid, edge, display, range, def_range)->0]),
{
    lemma_refs_leaf(c, r, target_reference(c, tid, edge, display, range, def_range)->0);
}

/// Below the root, the tree of a target is a reference, a cycle marker of
/// the root, or a leaf.
proof fn lemma_refs_target_tree(
    c: TreeCtx,
    tid: Seq<char>,
    stack: Seq<Seq<char>>,
    depth: nat,
    edge: Option<Seq<char>>,
    display: Option<Seq<char>>,
    range: Option<PassDebugSourceRange>,
    lim: nat,
    ma: nat,
    mh: nat,
    r: Seq<char>,
)
    requires
        stack == seq![r],
    ensures
        refs_tree(c, r, target_tree(c, tid, stack, depth, edge, display, range, lim, ma, mh)),
        refs_all(c, r, seq![target_tree(c, tid, stack, depth, edge, display, range, lim, ma, mh)]),
{
    let t = target_tree(c, tid, stack, depth, edge, display, range, lim, ma, mh);
    assert(stack[0] == r);
    if should_reference(stack, tid) && target_reference(c, tid, edge, display, range, None) is Some {
        lemma_refs_target_reference(c, r, tid, edge, display, range, None);
    } else if depth >= MAX_DEPENDENCY_DEPTH {
        match target_reference(c, tid, edge, display, range, None) {
            Some(x) => {
                lemma_refs_target_reference(c, r, tid, edge, display, range, None);
            },
            None => {
                lemma_refs_leaf(c, r, t);
            },
        }
    } else if stack.contains(tid) {
        assert(tid == r);
        lemma_refs_leaf(c, r, t);
    } else {
        if !should_reference(stack, tid) {
            assert(stack[0] == tid);
            assert(stack.contains(tid));
        }
        assert(known_target(c.known, tid) is None);
        lemma_refs_leaf(c, r, t);
    }
}

/// Below the root, the tree of a named expression is a reference, a cycle
/// marker of the root, or a leaf.
proof fn lemma_refs_named_tree(
    c: TreeCtx,
    tid: Seq<char>,
    e: (Option<Seq<char>>, usize),
    env: Option<DefinitionEnv>,
    stack: Seq<Seq<char>>,
    depth: nat,
    edge: Option<Seq<char>>,
    display: Option<Seq<char>>,
    range: Option<PassDebugSourceRange>,
    seen: Seq<(Option<Seq<char>>, usize)>,
    dstack: Seq<usize>,
    lim: nat,
    r: Seq<char>,
)
    requires
        stack == seq![r],
    ensures
        refs_all(c, r, seq![named_tree(c, tid, e, env, stack, depth, edge, display, range, seen, dstack, lim)]),
{
    let t = named_tree(c, tid, e, env, stack, depth, edge, display, range, seen, dstack, lim);
    assert(stack[0] == r);
    if should_reference(stack, tid) && target_reference(c, tid, edge, display, range, None) is Some {
        lemma_refs_target_reference(c, r, tid, edge, display, range, None);
    } else if depth >= MAX_DEPENDENCY_DEPTH {
        match target_reference(c, tid, edge, display, range, None) {
            Some(x) => {
                lemma_refs_target_reference(c, r, tid, edge, display, range, None);
            },
            None => {
                lemma_refs_leaf(c, r, t);
            },
        }
    } else if stack.contains(tid) {
        assert(tid == r);
        lemma_refs_leaf(c, r, t);
    } else {
        if !should_reference(stack, tid) {
            assert(stack[0] == tid);
            assert(stack.contains(tid));
        }
        assert(known_target(c.known, tid) is None);
        lemma_refs_leaf(c, r, t);
    }
}


proof fn lemma_known_target_id(known: Seq<TargetSpec>, id: Seq<char>)
    requires
        known_target(known, id) is Some,
    ensures
        known_target(known, id)->0.id == id,
{
    let i = choose|i: int| first_at(super::dependency::target_ids(known), id, i);
    assert(super::dependency::target_ids(known)[i] == id);
}

proof fn lemma_refs_push(c: TreeCtx, r: Seq<char>, a: Seq<DepTree>, t: DepTree)
    requires
        refs_all(c, r, a),
        refs_tree(c, r, t),
    ensures
        refs_all(c, r, a.push(t)),
{
    lemma_refs_one(c, r, t);
    lemma_refs_concat(c, r, a, seq![t]);
    assert(a.push(t) =~= a + seq![t]);
}

proof fn lemma_refs_global_children(c: TreeCtx, h: usize, stack: Seq<Seq<char>>, depth: nat, lim: nat, r: Seq<char>)
    requires
        stack == seq![r],
    ensures
        refs_all(c, r, global_children(c, h, stack, depth, lim)),
    decreases topm(stack), lim, dm(depth), 2nat, 0nat, 4nat, 0nat,
{
    let init = if h < c.m.globals@.len() {
        match c.m.globals@[h as int].init {
            Some(i) => {
                lemma_refs_expr_deps(c, (None, i), None, None, None, stack, seq![], seq![], inc(depth), lim, r);
                expr_deps(c, (None, i), None, None, None, stack, seq![], seq![], inc(depth), lim)
            },
            None => seq![],
        }
    } else {
        seq![]
    };
    lemma_refs_final_nodes(c, spec_global_id(h as nat), stack, inc(depth), lim, r);
    lemma_refs_concat(c, r, init, final_definition_nodes(c, spec_global_id(h as nat), stack, inc(depth), lim));
}

proof fn lemma_refs_local_children(
    c: TreeCtx,
    scope: Seq<char>,
    h: usize,
    tid: Seq<char>,
    stack: Seq<Seq<char>>,
    depth: nat,
    lim: nat,
    r: Seq<char>,
)
    requires
        stack == seq![r],
    ensures
        refs_all(c, r, local_children(c, scope, h, tid, stack, depth, lim)),
    decreases topm(stack), lim, dm(depth), 2nat, 0nat, 4nat, 0nat,
{
    lemma_refs_final_nodes(c, tid, stack, inc(depth), lim, r);
    match scope_function(c.m, scope) {
        Some(f) => if h < f.locals@.len() {
            match f.locals@[h as int].init {
                Some(i) => {
                    lemma_refs_expr_deps(c, (Some(scope), i), None, None, None, stack, seq![], seq![], inc(depth), lim, r);
                },
                None => {},
            }
        },
        None => {},
    }
}

proof fn lemma_refs_final_nodes(c: TreeCtx, tid: Seq<char>, stack: Seq<Seq<char>>, depth: nat, lim: nat, r: Seq<char>)
    requires
        stack == seq![r],
    ensures
        refs_all(c, r, final_definition_nodes(c, tid, stack, depth, lim)),
    decreases topm(stack), lim, dm(depth), 2nat, 0nat, 1nat, 0nat,
{
    match env_get(c.finals, tid) {
        None => {},
        Some(ds) => {
            lemma_refs_final_fold(c, ds, ds.len() as int, stack, depth, lim, r);
        },
    }
}

proof fn lemma_refs_final_fold(
    c: TreeCtx,
    ds: Seq<usize>,
    k: int,
    stack: Seq<Seq<char>>,
    depth: nat,
    lim: nat,
    r: Seq<char>,
)
    requires
        stack == seq![r],
    ensures
        refs_all(c, r, final_fold(c, ds, k, stack, depth, lim)),
    decreases topm(stack), lim, dm(depth), 2nat, 0nat, 0nat, (if k > 0 { k } else { 0 }) as nat,
{
    if k <= 0 || k > ds.len() {
    } else {
        let d = ds[k - 1];
        lemma_refs_final_fold(c, ds, k - 1, stack, depth, lim, r);
        if (d as nat) < lim {
            lemma_refs_definition_node(c, d, None, None, None, None, true, stack, seq![], seq![], inc(depth), d as nat, r);
        } else {
            lemma_refs_leaf(c, r, dep_leaf("missing definition "@ + spec_decimal(d as nat)));
        }
        let node = if (d as nat) < lim {
            definition_node(c, d, None, None, None, None, true, stack, seq![], seq![], inc(depth), d as nat)
        } else {
            dep_leaf("missing definition "@ + spec_decimal(d as nat))
        };
        lemma_refs_push(c, r, final_fold(c, ds, k - 1, stack, depth, lim), node);
    }
}

proof fn lemma_refs_return_children(c: TreeCtx, scope: Seq<char>, stack: Seq<Seq<char>>, depth: nat, lim: nat, r: Seq<char>)
    requires
        stack == seq![r],
    ensures
        refs_all(c, r, return_children(c, scope, stack, depth, lim)),
    decreases topm(stack), lim, dm(depth), 2nat, 0nat, 4nat, 0nat,
{
    let idx = scope_returns_of(c, scope);
    if idx.len() == 0 {
    } else if idx.len() == 1 && c.flow.returns@[idx[0]].controls@.len() == 0 {
        let ret = c.flow.returns@[idx[0]];
        match ret.value {
            Some(v) => {
                lemma_refs_expr_deps(c, (Some(scope), v), None, None, Some(ret.env), stack, seq![], seq![], inc(depth), lim, r);
            },
            None => {},
        }
    } else {
        lemma_refs_return_fold(c, scope, idx, idx.len() as int, stack, depth, lim, r);
    }
}

proof fn lemma_refs_return_fold(
    c: TreeCtx,
    scope: Seq<char>,
    idx: Seq<int>,
    k: int,
    stack: Seq<Seq<char>>,
    depth: nat,
    lim: nat,
    r: Seq<char>,
)
    requires
        stack == seq![r],
    ensures
        refs_all(c, r, return_fold(c, scope, idx, k, stack, depth, lim)),
    decreases topm(stack), lim, dm(depth), 2nat, 0nat, 3nat, (if k > 0 { k } else { 0 }) as nat,
{
    if k <= 0 || k > idx.len() {
    } else {
        let i = idx[k - 1];
        lemma_refs_return_fold(c, scope, idx, k - 1, stack, depth, lim, r);
        let value = if 0 <= i < c.flow.returns@.len() {
            match c.flow.returns@[i].value {
                Some(v) => {
                    lemma_refs_expr_deps(c, (Some(scope), v), None, None, Some(c.flow.returns@[i].env), stack, seq![], seq![], inc(depth), lim, r);
                    expr_deps(c, (Some(scope), v), None, None, Some(c.flow.returns@[i].env), stack, seq![], seq![], inc(depth), lim)
                },
                None => seq![],
            }
        } else {
            seq![]
        };
        let controls = if 0 <= i < c.flow.returns@.len() {
            lemma_refs_control_nodes(
                c,
                scope,
                c.flow.returns@[i].controls@,
                c.flow.returns@[i].controls@.len() as int,
                stack,
                inc(depth),
                lim,
                r,
            );
            control_nodes(c, scope, c.flow.returns@[i].controls@, c.flow.returns@[i].controls@.len() as int, stack, inc(depth), lim)
        } else {
            seq![]
        };
        lemma_refs_concat(c, r, controls, value);
        let node = dep_branch("[return "@ + spec_decimal((k - 1) as nat) + "] "@ + scope, controls + value);
        lemma_refs_node(c, r, node);
        lemma_refs_push(c, r, return_fold(c, scope, idx, k - 1, stack, depth, lim), node);
    }
}

proof fn lemma_refs_control_nodes(
    c: TreeCtx,
    scope: Seq<char>,
    controls: Seq<ControlDependency>,
    k: int,
    stack: Seq<Seq<char>>,
    depth: nat,
    lim: nat,
    r: Seq<char>,
)
    requires
        stack == seq![r],
    ensures
        refs_all(c, r, control_nodes(c, scope, controls, k, stack, depth, lim)),
    decreases topm(stack), lim, dm(depth), 2nat, 0nat, 2nat, (if k > 0 { k } else { 0 }) as nat,
{
    if k <= 0 || k > controls.len() {
    } else {
        let ctl = controls[k - 1];
        lemma_refs_control_nodes(c, scope, controls, k - 1, stack, depth, lim, r);
        lemma_refs_relation_node(c, (Some(scope), ctl.expr), ctl.label@, ctl.env, stack, inc(depth), lim, r);
        lemma_refs_push(
            c,
            r,
            control_nodes(c, scope, controls, k - 1, stack, depth, lim),
            relation_node(c, (Some(scope), ctl.expr), ctl.label@, ctl.env, stack, inc(depth), lim),
        );
    }
}

proof fn lemma_refs_relation_node(
    c: TreeCtx,
    e: (Option<Seq<char>>, usize),
    label: Seq<char>,
    env: DefinitionEnv,
    stack: Seq<Seq<char>>,
    depth: nat,
    lim: nat,
    r: Seq<char>,
)
    requires
        stack == seq![r],
    ensures
        refs_tree(c, r, relation_node(c, e, label, env, stack, depth, lim)),
    decreases topm(stack), lim, dm(depth), 2nat, 0nat, 1nat, 0nat,
{
    let children = expr_deps(c, e, None, None, Some(env), stack, seq![], seq![], inc(depth), lim);
    lemma_refs_expr_deps(c, e, None, None, Some(env), stack, seq![], seq![], inc(depth), lim, r);
    if children.len() == 0 {
        lemma_refs_leaf(c, r, dep_leaf(label + " [no variable dependencies]"@));
    } else {
        lemma_refs_node(c, r, dep_branch(label, children));
    }
}

proof fn lemma_refs_definition_nodes(
    c: TreeCtx,
    tid: Seq<char>,
    edge: Option<Seq<char>>,
    display: Option<Seq<char>>,
    range: Option<PassDebugSourceRange>,
    projection: Option<Seq<u32>>,
    env: Option<DefinitionEnv>,
    stack: Seq<Seq<char>>,
    seen: Seq<(Option<Seq<char>>, usize)>,
    dstack: Seq<usize>,
    depth: nat,
    lim: nat,
    ma: nat,
    mh: nat,
    r: Seq<char>,
)
    requires
        stack == seq![r],
    ensures
        definition_nodes(c, tid, edge, display, range, projection, env, stack, seen, dstack, depth, lim, ma, mh) matches Some(
            ns,
        ) ==> refs_all(c, r, ns),
    decreases topm(stack), lim, dm(depth), ma, mh, 1nat, 0nat,
{
    match env {
        None => {},
        Some(v) => match env_get(v, tid) {
            None => {},
            Some(ds) => {
                lemma_refs_definition_fold(
                    c,
                    tid,
                    edge,
                    display,
                    range,
                    projection,
                    ds,
                    ds.len() as int,
                    stack,
                    seen,
                    dstack,
                    depth,
                    lim,
                    ma,
                    mh,
                    r,
                );
            },
        },
    }
}

proof fn lemma_refs_definition_reference(
    c: TreeCtx,
    d: usize,
    edge: Option<Seq<char>>,
    display: Option<Seq<char>>,
    range: Option<PassDebugSourceRange>,
    r: Seq<char>,
)
    requires
        definition_reference(c, d, edge, display, range) is Some,
    ensures
        refs_tree(c, r, definition_reference(c, d, edge, display, range)->0),
{
    let def = c.flow.definitions@[d as int];
    let t = known_target(c.known, def.target_id@)->0;
    lemma_refs_target_reference(
        c,
        r,
        def.target_id@,
        edge,
        Some(definition_display(c, t, def, display, range)),
        range,
        def.source_range,
    );
}

proof fn lemma_refs_definition_fold(
    c: TreeCtx,
    tid: Seq<char>,
    edge: Option<Seq<char>>,
    display: Option<Seq<char>>,
    range: Option<PassDebugSourceRange>,
    projection: Option<Seq<u32>>,
    ds: Seq<usize>,
    k: int,
    stack: Seq<Seq<char>>,
    seen: Seq<(Option<Seq<char>>, usize)>,
    dstack: Seq<usize>,
    depth: nat,
    lim: nat,
    ma: nat,
    mh: nat,
    r: Seq<char>,
)
    requires
        stack == seq![r],
    ensures
        refs_all(c, r, definition_fold(c, tid, edge, display, range, projection, ds, k, stack, seen, dstack, depth, lim, ma, mh)),
    decreases topm(stack), lim, dm(depth), ma, mh, 0nat, (if k > 0 { k } else { 0 }) as nat,
{
    if k <= 0 || k > ds.len() {
    } else {
        let d = ds[k - 1];
        let d_depth = if is_root(stack, tid) {
            1nat
        } else {
            inc(depth)
        };
        lemma_refs_definition_fold(c, tid, edge, display, range, projection, ds, k - 1, stack, seen, dstack, depth, lim, ma, mh, r);
        let node = if should_reference(stack, tid) && definition_reference(c, d, edge, display, range) is Some {
            lemma_refs_definition_reference(c, d, edge, display, range, r);
            definition_reference(c, d, edge, display, range)->0
        } else if (d as nat) < lim {
            lemma_refs_definition_node(c, d, edge, display, range, projection, false, stack, seen, dstack, d_depth, d as nat, r);
            definition_node(c, d, edge, display, range, projection, false, stack, seen, dstack, d_depth, d as nat)
        } else {
            lemma_refs_leaf(c, r, dep_leaf("missing definition "@ + spec_decimal(d as nat)));
            dep_leaf("missing definition "@ + spec_decimal(d as nat))
        };
        lemma_refs_push(
            c,
            r,
            definition_fold(c, tid, edge, display, range, projection, ds, k - 1, stack, seen, dstack, depth, lim, ma, mh),
            node,
        );
    }
}

proof fn lemma_refs_definition_node(
    c: TreeCtx,
    d: usize,
    edge: Option<Seq<char>>,
    display: Option<Seq<char>>,
    range: Option<PassDebugSourceRange>,
    projection: Option<Seq<u32>>,
    is_occurrence: bool,
    stack: Seq<Seq<char>>,
    seen: Seq<(Option<Seq<char>>, usize)>,
    dstack: Seq<usize>,
    depth: nat,
    lim: nat,
    r: Seq<char>,
)
    requires
        stack == seq![r],
    ensures
        refs_tree(c, r, definition_node(c, d, edge, display, range, projection, is_occurrence, stack, seen, dstack, depth, lim)),
    decreases topm(stack), lim, dm(depth), 2nat, 0nat, 5nat, 0nat,
{
    let n = definition_node(c, d, edge, display, range, projection, is_occurrence, stack, seen, dstack, depth, lim);
    assert(stack[0] == r);
    if d >= c.flow.definitions@.len() {
        lemma_refs_leaf(c, r, n);
    } else {
        let def = c.flow.definitions@[d as int];
        match known_target(c.known, def.target_id@) {
            None => {
                lemma_refs_leaf(c, r, n);
            },
            Some(t) => {
                lemma_known_target_id(c.known, def.target_id@);
                let node_range = if is_occurrence {
                    or_range(range, def.source_range)
                } else {
                    range
                };
                let disp = definition_display(c, t, def, display, node_range);
                if should_reference(stack, def.target_id@) {
                    lemma_refs_target_reference(c, r, def.target_id@, edge, Some(disp), node_range, def.source_range);
                } else {
                    assert(def.target_id@ == r);
                    if depth >= MAX_DEPENDENCY_DEPTH {
                        lemma_refs_leaf(c, r, n);
                    } else if dstack.contains(d) {
                        lemma_refs_leaf(c, r, n);
                    } else {
                        let inner = dstack.push(d);
                        let controls = control_nodes(c, def.scope@, def.controls@, def.controls@.len() as int, stack, inc(depth), lim);
                        lemma_refs_control_nodes(c, def.scope@, def.controls@, def.controls@.len() as int, stack, inc(depth), lim, r);
                        let value = match def.value {
                            Some(v) => {
                                let vr = (Some(def.scope@), v);
                                let vocc = match def.source_range {
                                    Some(sr) => value_occurrence_range(c.m, c.b, c.known, sr, vr),
                                    None => None,
                                };
                                if projection is Some && projection->0.len() > 0 {
                                    lemma_refs_projected_deps(c, vr, None, vocc, projection->0, Some(def.env), stack, seen, inner, inc(depth), lim, r);
                                    projected_deps(c, vr, None, vocc, projection->0, Some(def.env), stack, seen, inner, inc(depth), lim)
                                } else {
                                    lemma_refs_expr_deps(c, vr, None, vocc, Some(def.env), stack, seen, inner, inc(depth), lim, r);
                                    expr_deps(c, vr, None, vocc, Some(def.env), stack, seen, inner, inc(depth), lim)
                                }
                            },
                            None => seq![],
                        };
                        lemma_refs_concat(c, r, controls, value);
                        lemma_refs_no_contributors(c, r, controls + value);
                        lemma_refs_node(c, r, n);
                    }
                }
            },
        }
    }
}


proof fn lemma_refs_expr_deps(
    c: TreeCtx,
    e: (Option<Seq<char>>, usize),
    edge: Option<Seq<char>>,
    occ: Option<PassDebugSourceRange>,
    env: Option<DefinitionEnv>,
    stack: Seq<Seq<char>>,
    seen: Seq<(Option<Seq<char>>, usize)>,
    dstack: Seq<usize>,
    depth: nat,
    lim: nat,
    r: Seq<char>,
)
    requires
        stack == seq![r],
    ensures
        refs_all(c, r, expr_deps(c, e, edge, occ, env, stack, seen, dstack, depth, lim)),
    decreases topm(stack), lim, dm(depth), arena_rank(e), e.1 as nat, 8nat, 0nat,
{
    let eff = effective_env(c, env, e);
    let named = named_target(c.m, e);
    if named is Some && !stack.contains(named->0) {
        lemma_refs_named_tree(c, named->0, e, eff, stack, inc(depth), edge, None, occ, seen, dstack, lim, r);
    } else {
        match spec_access_path(c.m, c.b, c.known, e, stack) {
            Some(ap) => {
                let range = or_range(occ, ap.source_range);
                let first = match definition_nodes(
                    c,
                    ap.target_id,
                    edge,
                    Some(ap.display_label),
                    range,
                    ap.projection,
                    eff,
                    stack,
                    seen,
                    dstack,
                    inc(depth),
                    lim,
                    arena_rank(e),
                    e.1 as nat,
                ) {
                    Some(ns) => {
                        lemma_refs_definition_nodes(
                            c,
                            ap.target_id,
                            edge,
                            Some(ap.display_label),
                            range,
                            ap.projection,
                            eff,
                            stack,
                            seen,
                            dstack,
                            inc(depth),
                            lim,
                            arena_rank(e),
                            e.1 as nat,
                            r,
                        );
                        ns
                    },
                    None => {
                        lemma_refs_target_tree(
                            c,
                            ap.target_id,
                            stack,
                            inc(depth),
                            edge,
                            Some(ap.display_label),
                            range,
                            lim,
                            arena_rank(e),
                            e.1 as nat,
                            r,
                        );
                        seq![target_tree(c, ap.target_id, stack, inc(depth), edge, Some(ap.display_label), range, lim, arena_rank(e), e.1 as nat)]
                    },
                };
                lemma_refs_index_deps(c, e, edge, eff, stack, seen, dstack, inc(depth), lim, r);
                lemma_refs_concat(c, r, first, index_deps(c, e, edge, eff, stack, seen, dstack, inc(depth), lim));
            },
            None => if depth >= MAX_DEPENDENCY_DEPTH {
                lemma_refs_leaf(c, r, dep_leaf("[depth limit]"@));
            } else if seen.contains(e) {
            } else {
                match expr_at(c.m, e) {
                    None => {},
                    Some(x) => {
                        lemma_refs_expr_children(c, e, x, edge, eff, stack, seen.push(e), dstack, inc(depth), lim, r);
                    },
                }
            },
        }
    }
}

proof fn lemma_refs_index_deps(
    c: TreeCtx,
    e: (Option<Seq<char>>, usize),
    edge: Option<Seq<char>>,
    env: Option<DefinitionEnv>,
    stack: Seq<Seq<char>>,
    seen: Seq<(Option<Seq<char>>, usize)>,
    dstack: Seq<usize>,
    depth: nat,
    lim: nat,
    r: Seq<char>,
)
    requires
        stack == seq![r],
    ensures
        refs_all(c, r, index_deps(c, e, edge, env, stack, seen, dstack, depth, lim)),
    decreases topm(stack), lim, dm(depth), arena_rank(e), e.1 as nat, 3nat, 0nat,
{
    match expr_at(c.m, e) {
        None => {},
        Some(x) => match x.kind {
            IrExprKind::Operands { op } => match op {
                IrExprOp::Load { pointer } => if pointer < e.1 {
                    lemma_refs_index_deps(c, (e.0, pointer), edge, env, stack, seen, dstack, inc(depth), lim, r);
                },
                IrExprOp::Access { base, index } => {
                    let b = if base < e.1 {
                        lemma_refs_index_deps(c, (e.0, base), edge, env, stack, seen, dstack, inc(depth), lim, r);
                        index_deps(c, (e.0, base), edge, env, stack, seen, dstack, inc(depth), lim)
                    } else {
                        seq![]
                    };
                    let i = if index < e.1 {
                        lemma_refs_expr_deps(c, (e.0, index), edge, None, env, stack, seen, dstack, inc(depth), lim, r);
                        expr_deps(c, (e.0, index), edge, None, env, stack, seen, dstack, inc(depth), lim)
                    } else {
                        seq![]
                    };
                    lemma_refs_concat(c, r, b, i);
                },
                IrExprOp::AccessIndex { base, .. } => if base < e.1 {
                    lemma_refs_index_deps(c, (e.0, base), edge, env, stack, seen, dstack, inc(depth), lim, r);
                },
                _ => {},
            },
            IrExprKind::Swizzle { vector, .. } => if vector < e.1 {
                lemma_refs_index_deps(c, (e.0, vector), edge, env, stack, seen, dstack, inc(depth), lim, r);
            },
            _ => {},
        },
    }
}

proof fn lemma_refs_operands(
    c: TreeCtx,
    e: (Option<Seq<char>>, usize),
    ops: Seq<usize>,
    ranges: Seq<(int, int)>,
    edge: Option<Seq<char>>,
    env: Option<DefinitionEnv>,
    stack: Seq<Seq<char>>,
    seen: Seq<(Option<Seq<char>>, usize)>,
    dstack: Seq<usize>,
    depth: nat,
    lim: nat,
    r: Seq<char>,
)
    requires
        stack == seq![r],
    ensures
        refs_all(c, r, operand_deps(c, e, ops, 0, ranges, seq![], edge, env, stack, seen, dstack, depth, lim)),
    decreases topm(stack), lim, dm(depth), arena_rank(e), e.1 as nat, 6nat, (ops.len() + 1) as nat,
{
    lemma_refs_operand_deps(c, e, ops, 0, ranges, seq![], edge, env, stack, seen, dstack, depth, lim, r);
}

proof fn lemma_refs_expr_children(
    c: TreeCtx,
    e: (Option<Seq<char>>, usize),
    x: IrExpression,
    edge: Option<Seq<char>>,
    env: Option<DefinitionEnv>,
    stack: Seq<Seq<char>>,
    seen: Seq<(Option<Seq<char>>, usize)>,
    dstack: Seq<usize>,
    depth: nat,
    lim: nat,
    r: Seq<char>,
)
    requires
        stack == seq![r],
    ensures
        refs_all(c, r, expr_children(c, e, x, edge, env, stack, seen, dstack, depth, lim)),
    decreases topm(stack), lim, dm(depth), arena_rank(e), e.1 as nat, 7nat, 0nat,
{
    let ranges = search_ranges(c, e);
    let d1 = inc(depth);
    match x.kind {
        IrExprKind::Leaf { leaf, .. } => match leaf {
            IrExprLeaf::Constant(h) => if h < c.m.constants@.len() {
                let init = c.m.constants@[h as int].init;
                if e.0 is Some || init < e.1 {
                    lemma_refs_expr_deps(c, (None, init), edge, None, env, stack, seen, dstack, d1, lim, r);
                }
            },
            IrExprLeaf::Override(h) => if h < c.m.overrides@.len() {
                match c.m.overrides@[h as int].init {
                    Some(init) => if e.0 is Some || init < e.1 {
                        lemma_refs_expr_deps(c, (None, init), edge, None, env, stack, seen, dstack, d1, lim, r);
                    },
                    None => {},
                }
            },
            IrExprLeaf::FunctionArgument(i) => {
                lemma_refs_target_tree(
                    c,
                    spec_scoped_id(super::access::scope_of(e), "arg"@, i as nat),
                    stack,
                    d1,
                    edge,
                    None,
                    None,
                    lim,
                    arena_rank(e),
                    e.1 as nat,
                    r,
                );
            },
            IrExprLeaf::GlobalVariable(g) => {
                lemma_refs_target_tree(c, spec_global_id(g as nat), stack, d1, edge, None, None, lim, arena_rank(e), e.1 as nat, r);
            },
            IrExprLeaf::LocalVariable(l) => {
                lemma_refs_target_tree(
                    c,
                    spec_scoped_id(super::access::scope_of(e), "local"@, l as nat),
                    stack,
                    d1,
                    edge,
                    None,
                    None,
                    lim,
                    arena_rank(e),
                    e.1 as nat,
                    r,
                );
            },
            IrExprLeaf::CallResult(_) => match call_of(c, e) {
                Some(call) => {
                    lemma_refs_operands(c, e, call.arguments, ranges, Some(call_edge(c, call.function)), env, stack, seen, dstack, d1, lim, r);
                },
                None => {},
            },
            IrExprLeaf::ArrayLength(h) => {
                lemma_refs_operands(c, e, seq![h], ranges, op_edge(edge, "arrayLength"@), env, stack, seen, dstack, d1, lim, r);
            },
            _ => {},
        },
        IrExprKind::Compose { components, .. } => {
            lemma_refs_operands(c, e, components@, ranges, op_edge(edge, "Compose"@), env, stack, seen, dstack, d1, lim, r);
        },
        IrExprKind::Swizzle { vector, .. } => {
            lemma_refs_operands(c, e, seq![vector], ranges, op_edge(edge, "Swizzle"@), env, stack, seen, dstack, d1, lim, r);
        },
        IrExprKind::Operands { op } => match op {
            IrExprOp::Access { base, index } => {
                lemma_refs_operands(c, e, seq![base, index], ranges, op_edge(edge, "Access"@), env, stack, seen, dstack, d1, lim, r);
            },
            IrExprOp::AccessIndex { base, .. } => {
                lemma_refs_operands(c, e, seq![base], ranges, op_edge(edge, "Access"@), env, stack, seen, dstack, d1, lim, r);
            },
            IrExprOp::Splat { value, .. } => {
                lemma_refs_operands(c, e, seq![value], ranges, op_edge(edge, "Splat"@), env, stack, seen, dstack, d1, lim, r);
            },
            IrExprOp::Load { pointer } => {
                lemma_refs_operands(c, e, seq![pointer], ranges, edge, env, stack, seen, dstack, d1, lim, r);
            },
            IrExprOp::ImageSample { image, sampler, coordinate, array_index, offset, depth_ref, .. } => {
                lemma_refs_operands(
                    c,
                    e,
                    seq![image, sampler, coordinate] + opt_handle(array_index) + opt_handle(offset) + opt_handle(depth_ref),
                    ranges,
                    Some("textureSample"@),
                    env,
                    stack,
                    seen,
                    dstack,
                    d1,
                    lim,
                    r,
                );
            },
            IrExprOp::ImageLoad { image, coordinate, array_index, sample, level } => {
                lemma_refs_operands(
                    c,
                    e,
                    seq![image, coordinate] + opt_handle(array_index) + opt_handle(sample) + opt_handle(level),
                    ranges,
                    Some("textureLoad"@),
                    env,
                    stack,
                    seen,
                    dstack,
                    d1,
                    lim,
                    r,
                );
            },
            IrExprOp::ImageQuery { image, .. } => {
                lemma_refs_operands(c, e, seq![image], ranges, Some("textureQuery"@), env, stack, seen, dstack, d1, lim, r);
            },
            IrExprOp::Unary { op, expr } => {
                lemma_refs_operands(c, e, seq![expr], ranges, op_edge(edge, op@), env, stack, seen, dstack, d1, lim, r);
            },
            IrExprOp::Binary { op, left, right } => {
                lemma_refs_operands(c, e, seq![left, right], ranges, op_edge(edge, op@), env, stack, seen, dstack, d1, lim, r);
            },
            IrExprOp::Select { condition, accept, reject } => {
                lemma_refs_operands(c, e, seq![condition, accept, reject], ranges, op_edge(edge, "Select"@), env, stack, seen, dstack, d1, lim, r);
            },
            IrExprOp::Derivative { axis, ctrl, expr } => {
                lemma_refs_operands(c, e, seq![expr], ranges, op_edge(edge, axis@ + "/"@ + ctrl@), env, stack, seen, dstack, d1, lim, r);
            },
            IrExprOp::Relational { fun, argument } => {
                lemma_refs_operands(c, e, seq![argument], ranges, op_edge(edge, fun@), env, stack, seen, dstack, d1, lim, r);
            },
            IrExprOp::Math { fun, arg, arg1, arg2, arg3 } => {
                lemma_refs_operands(
                    c,
                    e,
                    seq![arg] + opt_handle(arg1) + opt_handle(arg2) + opt_handle(arg3),
                    ranges,
                    op_edge(edge, fun@),
                    env,
                    stack,
                    seen,
                    dstack,
                    d1,
                    lim,
                    r,
                );
            },
            IrExprOp::As { expr, .. } => {
                lemma_refs_operands(c, e, seq![expr], ranges, op_edge(edge, "As"@), env, stack, seen, dstack, d1, lim, r);
            },
            IrExprOp::RayQueryGetIntersection { query, .. } => {
                lemma_refs_operands(c, e, seq![query], ranges, op_edge(edge, "rayQueryGetIntersection"@), env, stack, seen, dstack, d1, lim, r);
            },
        },
    }
}

proof fn lemma_refs_operand_deps(
    c: TreeCtx,
    current: (Option<Seq<char>>, usize),
    ops: Seq<usize>,
    j: int,
    ranges: Seq<(int, int)>,
    counts: Seq<(Seq<char>, usize)>,
    edge: Option<Seq<char>>,
    env: Option<DefinitionEnv>,
    stack: Seq<Seq<char>>,
    seen: Seq<(Option<Seq<char>>, usize)>,
    dstack: Seq<usize>,
    depth: nat,
    lim: nat,
    r: Seq<char>,
)
    requires
        stack == seq![r],
    ensures
        refs_all(c, r, operand_deps(c, current, ops, j, ranges, counts, edge, env, stack, seen, dstack, depth, lim)),
    decreases topm(stack), lim, dm(depth), arena_rank(current), current.1 as nat, 6nat, (if 0 <= j < ops.len() {
        ops.len() - j
    } else {
        0
    }) as nat,
{
    if j < 0 || j >= ops.len() {
    } else {
        let h = ops[j];
        let o = occurrence(c, ranges, (current.0, h), counts);
        let deps = if h < current.1 {
            lemma_refs_expr_deps(c, (current.0, h), edge, o.0, env, stack, seen, dstack, inc(depth), lim, r);
            expr_deps(c, (current.0, h), edge, o.0, env, stack, seen, dstack, inc(depth), lim)
        } else {
            seq![]
        };
        lemma_refs_operand_deps(c, current, ops, j + 1, ranges, o.1, edge, env, stack, seen, dstack, depth, lim, r);
        lemma_refs_concat(c, r, deps, operand_deps(c, current, ops, j + 1, ranges, o.1, edge, env, stack, seen, dstack, depth, lim));
    }
}


proof fn lemma_refs_projected_deps(
    c: TreeCtx,
    e: (Option<Seq<char>>, usize),
    edge: Option<Seq<char>>,
    occ: Option<PassDebugSourceRange>,
    projection: Seq<u32>,
    env: Option<DefinitionEnv>,
    stack: Seq<Seq<char>>,
    seen: Seq<(Option<Seq<char>>, usize)>,
    dstack: Seq<usize>,
    depth: nat,
    lim: nat,
    r: Seq<char>,
)
    requires
        stack == seq![r],
    ensures
        refs_all(c, r, projected_deps(c, e, edge, occ, projection, env, stack, seen, dstack, depth, lim)),
    decreases topm(stack), lim, dm(depth), arena_rank(e), e.1 as nat, 10nat, 0nat,
{
    if projection.len() == 0 {
    } else {
        let eff = effective_env(c, env, e);
        match spec_access_path(c.m, c.b, c.known, e, stack) {
            Some(ap) => {
                let tp = spec_combine_access_projection(ap.projection, projection);
                if tp.len() == 0 {
                } else {
                    let range = or_range(occ, ap.source_range);
                    let first = match definition_nodes(
                        c,
                        ap.target_id,
                        edge,
                        Some(ap.display_label),
                        range,
                        Some(tp),
                        eff,
                        stack,
                        seen,
                        dstack,
                        inc(depth),
                        lim,
                        arena_rank(e),
                        e.1 as nat,
                    ) {
                        Some(ns) => {
                            lemma_refs_definition_nodes(
                                c,
                                ap.target_id,
                                edge,
                                Some(ap.display_label),
                                range,
                                Some(tp),
                                eff,
                                stack,
                                seen,
                                dstack,
                                inc(depth),
                                lim,
                                arena_rank(e),
                                e.1 as nat,
                                r,
                            );
                            ns
                        },
                        None => {
                            lemma_refs_target_tree(
                                c,
                                ap.target_id,
                                stack,
                                inc(depth),
                                edge,
                                Some(ap.display_label),
                                range,
                                lim,
                                arena_rank(e),
                                e.1 as nat,
                                r,
                            );
                            seq![target_tree(c, ap.target_id, stack, inc(depth), edge, Some(ap.display_label), range, lim, arena_rank(e), e.1 as nat)]
                        },
                    };
                    lemma_refs_index_deps(c, e, edge, eff, stack, seen, dstack, inc(depth), lim, r);
                    lemma_refs_concat(c, r, first, index_deps(c, e, edge, eff, stack, seen, dstack, inc(depth), lim));
                }
            },
            None => if named_target(c.m, e) is Some {
                lemma_refs_expr_deps(c, e, edge, occ, env, stack, seen, dstack, inc(depth), lim, r);
            } else if depth >= MAX_DEPENDENCY_DEPTH {
                lemma_refs_leaf(c, r, dep_leaf("[depth limit]"@));
            } else if seen.contains(e) {
            } else {
                match expr_at(c.m, e) {
                    None => {},
                    Some(x) => {
                        lemma_refs_projected_children(c, e, x, edge, occ, projection, env, eff, stack, seen.push(e), dstack, inc(depth), lim, r);
                    },
                }
            },
        }
    }
}

proof fn lemma_refs_projected_children(
    c: TreeCtx,
    e: (Option<Seq<char>>, usize),
    x: IrExpression,
    edge: Option<Seq<char>>,
    occ: Option<PassDebugSourceRange>,
    projection: Seq<u32>,
    env: Option<DefinitionEnv>,
    eff: Option<DefinitionEnv>,
    stack: Seq<Seq<char>>,
    seen: Seq<(Option<Seq<char>>, usize)>,
    dstack: Seq<usize>,
    depth: nat,
    lim: nat,
    r: Seq<char>,
)
    requires
        stack == seq![r],
    ensures
        refs_all(c, r, projected_children(c, e, x, edge, occ, projection, env, eff, stack, seen, dstack, depth, lim)),
    decreases topm(stack), lim, dm(depth), arena_rank(e), e.1 as nat, 9nat, 0nat,
{
    let ranges = search_ranges(c, e);
    match x.kind {
        IrExprKind::Compose { components, .. } => {
            lemma_refs_compose_deps(
                c,
                e,
                components@,
                0,
                0,
                ranges,
                seq![],
                op_edge(edge, "Compose"@),
                projection,
                eff,
                stack,
                seen,
                dstack,
                depth,
                lim,
                r,
            );
        },
        IrExprKind::Operands { op } => match op {
            IrExprOp::Splat { value, .. } => {
                lemma_refs_projected_operand_deps(c, e, seq![(value, None)], 0, ranges, seq![], op_edge(edge, "Splat"@), eff, stack, seen, dstack, depth, lim, r);
            },
            IrExprOp::Binary { op, left, right } => {
                lemma_refs_projected_operand_deps(
                    c,
                    e,
                    seq![(left, operand_projection(c, e, left, projection)), (right, operand_projection(c, e, right, projection))],
                    0,
                    ranges,
                    seq![],
                    op_edge(edge, op@),
                    eff,
                    stack,
                    seen,
                    dstack,
                    depth,
                    lim,
                    r,
                );
            },
            IrExprOp::Unary { op, expr } => {
                lemma_refs_projected_operand_deps(c, e, seq![(expr, Some(projection))], 0, ranges, seq![], op_edge(edge, op@), eff, stack, seen, dstack, depth, lim, r);
            },
            IrExprOp::As { expr, .. } => {
                lemma_refs_projected_operand_deps(c, e, seq![(expr, Some(projection))], 0, ranges, seq![], op_edge(edge, "As"@), eff, stack, seen, dstack, depth, lim, r);
            },
            IrExprOp::Derivative { axis, ctrl, expr } => {
                lemma_refs_projected_operand_deps(
                    c,
                    e,
                    seq![(expr, Some(projection))],
                    0,
                    ranges,
                    seq![],
                    op_edge(edge, axis@ + "/"@ + ctrl@),
                    eff,
                    stack,
                    seen,
                    dstack,
                    depth,
                    lim,
                    r,
                );
            },
            IrExprOp::Math { fun, arg, arg1, arg2, arg3 } => {
                lemma_refs_projected_operand_deps(
                    c,
                    e,
                    seq![(arg, operand_projection(c, e, arg, projection))] + opt_pair(c, e, arg1, projection) + opt_pair(c, e, arg2, projection)
                        + opt_pair(c, e, arg3, projection),
                    0,
                    ranges,
                    seq![],
                    op_edge(edge, fun@),
                    eff,
                    stack,
                    seen,
                    dstack,
                    depth,
                    lim,
                    r,
                );
            },
            IrExprOp::Select { condition, accept, reject } => {
                lemma_refs_projected_operand_deps(
                    c,
                    e,
                    seq![(condition, None)],
                    0,
                    ranges,
                    seq![],
                    op_edge(edge, "Select"@),
                    eff,
                    stack,
                    seen,
                    dstack,
                    depth,
                    lim,
                    r,
                );
                lemma_refs_projected_operand_deps(
                    c,
                    e,
                    seq![(accept, operand_projection(c, e, accept, projection)), (reject, operand_projection(c, e, reject, projection))],
                    0,
                    ranges,
                    seq![],
                    op_edge(edge, "Select"@),
                    eff,
                    stack,
                    seen,
                    dstack,
                    depth,
                    lim,
                    r,
                );
                lemma_refs_concat(
                    c,
                    r,
                    projected_operand_deps(
                        c,
                        e,
                        seq![(condition, None)],
                        0,
                        ranges,
                        seq![],
                        op_edge(edge, "Select"@),
                        eff,
                        stack,
                        seen,
                        dstack,
                        depth,
                        lim,
                    ),
                    projected_operand_deps(
                        c,
                        e,
                        seq![(accept, operand_projection(c, e, accept, projection)), (reject, operand_projection(c, e, reject, projection))],
                        0,
                        ranges,
                        seq![],
                        op_edge(edge, "Select"@),
                        eff,
                        stack,
                        seen,
                        dstack,
                        depth,
                        lim,
                    ),
                );
            },
            _ => {
                lemma_refs_expr_deps(c, e, edge, occ, env, stack, seen, dstack, depth, lim, r);
            },
        },
        IrExprKind::Leaf { leaf: IrExprLeaf::CallResult(_), .. } => match call_of(c, e) {
            Some(call) => {
                lemma_refs_projected_operand_deps(
                    c,
                    e,
                    projected_arguments(c, e, call.arguments, projection),
                    0,
                    ranges,
                    seq![],
                    op_edge(edge, call_edge(c, call.function)),
                    eff,
                    stack,
                    seen,
                    dstack,
                    depth,
                    lim,
                    r,
                );
            },
            None => {},
        },
        _ => {
            lemma_refs_expr_deps(c, e, edge, occ, env, stack, seen, dstack, depth, lim, r);
        },
    }
}

proof fn lemma_refs_compose_deps(
    c: TreeCtx,
    current: (Option<Seq<char>>, usize),
    comps: Seq<usize>,
    j: int,
    offset: int,
    ranges: Seq<(int, int)>,
    counts: Seq<(Seq<char>, usize)>,
    edge: Option<Seq<char>>,
    projection: Seq<u32>,
    env: Option<DefinitionEnv>,
    stack: Seq<Seq<char>>,
    seen: Seq<(Option<Seq<char>>, usize)>,
    dstack: Seq<usize>,
    depth: nat,
    lim: nat,
    r: Seq<char>,
)
    requires
        stack == seq![r],
    ensures
        refs_all(c, r, compose_deps(c, current, comps, j, offset, ranges, counts, edge, projection, env, stack, seen, dstack, depth, lim)),
    decreases topm(stack), lim, dm(depth), arena_rank(current), current.1 as nat, 6nat, (if 0 <= j < comps.len() {
        comps.len() - j
    } else {
        0
    }) as nat,
{
    if j < 0 || j >= comps.len() {
    } else {
        let h = comps[j];
        let o = (current.0, h);
        let width = component_width(c, o);
        let sel = select_in(projection, offset, width);
        if sel.len() == 0 {
            lemma_refs_compose_deps(c, current, comps, j + 1, offset + width, ranges, counts, edge, projection, env, stack, seen, dstack, depth, lim, r);
        } else {
            let oc = occurrence(c, ranges, o, counts);
            let deps = if h < current.1 {
                if width > 1 && sel.len() < width {
                    lemma_refs_projected_deps(c, o, edge, oc.0, spec_dedupe(sel), env, stack, seen, dstack, inc(depth), lim, r);
                    projected_deps(c, o, edge, oc.0, spec_dedupe(sel), env, stack, seen, dstack, inc(depth), lim)
                } else {
                    lemma_refs_expr_deps(c, o, edge, oc.0, env, stack, seen, dstack, inc(depth), lim, r);
                    expr_deps(c, o, edge, oc.0, env, stack, seen, dstack, inc(depth), lim)
                }
            } else {
                seq![]
            };
            lemma_refs_compose_deps(c, current, comps, j + 1, offset + width, ranges, oc.1, edge, projection, env, stack, seen, dstack, depth, lim, r);
            lemma_refs_concat(
                c,
                r,
                deps,
                compose_deps(c, current, comps, j + 1, offset + width, ranges, oc.1, edge, projection, env, stack, seen, dstack, depth, lim),
            );
        }
    }
}

proof fn lemma_refs_projected_operand_deps(
    c: TreeCtx,
    current: (Option<Seq<char>>, usize),
    ops: Seq<(usize, Option<Seq<u32>>)>,
    j: int,
    ranges: Seq<(int, int)>,
    counts: Seq<(Seq<char>, usize)>,
    edge: Option<Seq<char>>,
    env: Option<DefinitionEnv>,
    stack: Seq<Seq<char>>,
    seen: Seq<(Option<Seq<char>>, usize)>,
    dstack: Seq<usize>,
    depth: nat,
    lim: nat,
    r: Seq<char>,
)
    requires
        stack == seq![r],
    ensures
        refs_all(c, r, projected_operand_deps(c, current, ops, j, ranges, counts, edge, env, stack, seen, dstack, depth, lim)),
    decreases topm(stack), lim, dm(depth), arena_rank(current), current.1 as nat, 6nat, (if 0 <= j < ops.len() {
        ops.len() - j
    } else {
        0
    }) as nat,
{
    if j < 0 || j >= ops.len() {
    } else {
        let h = ops[j].0;
        let o = (current.0, h);
        let oc = occurrence(c, ranges, o, counts);
        let deps = if h < current.1 {
            match ops[j].1 {
                Some(p) => if p.len() > 0 {
                    lemma_refs_projected_deps(c, o, edge, oc.0, p, env, stack, seen, dstack, inc(depth), lim, r);
                    projected_deps(c, o, edge, oc.0, p, env, stack, seen, dstack, inc(depth), lim)
                } else {
                    lemma_refs_expr_deps(c, o, edge, oc.0, env, stack, seen, dstack, inc(depth), lim, r);
                    expr_deps(c, o, edge, oc.0, env, stack, seen, dstack, inc(depth), lim)
                },
                None => {
                    lemma_refs_expr_deps(c, o, edge, oc.0, env, stack, seen, dstack, inc(depth), lim, r);
                    expr_deps(c, o, edge, oc.0, env, stack, seen, dstack, inc(depth), lim)
                },
            }
        } else {
            seq![]
        };
        lemma_refs_projected_operand_deps(c, current, ops, j + 1, ranges, oc.1, edge, env, stack, seen, dstack, depth, lim, r);
        lemma_refs_concat(
            c,
            r,
            deps,
            projected_operand_deps(c, current, ops, j + 1, ranges, oc.1, edge, env, stack, seen, dstack, depth, lim),
        );
    }
}

/// In the tree of a target, every node that names another of the targets
/// is a reference to it, and every reference node has no children: only
/// the root target is expanded.
pub proof fn lemma_other_targets_are_references(c: TreeCtx, r: Seq<char>)
    ensures
        refs_tree(c, r, root_tree(c, r)),
{
    let lim = c.flow.definitions@.len();
    let t = root_tree(c, r);
    let stack = Seq::<Seq<char>>::empty();
    match known_target(c.known, r) {
        None => {
            lemma_refs_leaf(c, r, t);
        },
        Some(tg) => match kind_of(c, tg) {
            None => {
                lemma_refs_leaf(c, r, t);
            },
            Some(k) => {
                lemma_known_target_id(c.known, r);
                let inner = stack.push(r);
                assert(inner == seq![r]);
                let children = match k {
                    KindView::Global(h) => {
                        lemma_refs_global_children(c, h, inner, 0, lim, r);
                        global_children(c, h, inner, 0, lim)
                    },
                    KindView::Argument(scope, index) => {
                        lemma_refs_leaf(c, r, dep_leaf("[source] function argument "@ + scope + "::"@ + spec_decimal(index as nat)));
                        seq![dep_leaf("[source] function argument "@ + scope + "::"@ + spec_decimal(index as nat))]
                    },
                    KindView::Local(scope, h) => {
                        lemma_refs_local_children(c, scope, h, r, inner, 0, lim, r);
                        local_children(c, scope, h, r, inner, 0, lim)
                    },
                    KindView::Named(scope, h) => {
                        lemma_refs_expr_deps(c, (Some(scope), h), None, None, None, inner, seq![], seq![], inc(0), lim, r);
                        expr_deps(c, (Some(scope), h), None, None, None, inner, seq![], seq![], inc(0), lim)
                    },
                    KindView::Return(scope) => {
                        lemma_refs_return_children(c, scope, inner, inc(0), lim, r);
                        return_children(c, scope, inner, inc(0), lim)
                    },
                };
                lemma_refs_no_contributors(c, r, children);
                lemma_refs_node(c, r, t);
            },
        },
    }
}

} // verus!
