//! The AST outline of a module: entry points, functions, globals, types and
//! constants, with every expression and statement as a collapsible tree.

use vstd::prelude::*;
use vstd::string::StringSliceAdditionalSpecFns;

use super::ir::{
    IrArgument, IrConstant, IrEntryPoint, IrExprKind, IrExprLeaf, IrExprOp, IrExpression, IrFunction,
    IrGlobal, IrLocal, IrNamedExpression, IrOperand, IrOverride, IrResult, IrSpan, IrStage,
    IrStatement, IrStmtLeaf, IrStmtOp, IrSwitchCase, IrSwizzleComponent, IrType, ShaderModule,
};
use super::model::{PassDebugAstNode, PassDebugDependencyTarget, PassDebugSourceRange};
use super::shapes::{
    expr_leaf_label, expr_op_label, expr_op_operands, spec_expr_leaf_label, spec_expr_op_label,
    spec_expr_op_operands, spec_stmt_leaf_label, spec_stmt_op_label, spec_stmt_op_operands,
    stmt_leaf_label, stmt_op_label, stmt_op_operands,
};
use super::source_mapping::{source_range_from_byte_range, spec_source_range};
use crate::text::{bool_label, concat, concat3, decimal, owned, spec_bool_label, spec_decimal};

verus! {

/// Expressions nested deeper than this are shown as `...`.
pub const MAX_EXPR_DEPTH: usize = 8;

// ---------------------------------------------------------------------------
// The outline as a mathematical tree
// ---------------------------------------------------------------------------

/// The abstract value of an outline node.
pub struct AstTree {
    pub label: Seq<char>,
    pub target_id: Option<Seq<char>>,
    pub role: Option<Seq<char>>,
    pub source_range: Option<PassDebugSourceRange>,
    pub children: Seq<AstTree>,
}

pub open spec fn tree_leaf(label: Seq<char>) -> AstTree {
    AstTree { label, target_id: None, role: None, source_range: None, children: seq![] }
}

pub open spec fn tree_branch(label: Seq<char>, children: Seq<AstTree>) -> AstTree {
    AstTree { label, target_id: None, role: None, source_range: None, children }
}

pub open spec fn opt_view(o: Option<String>) -> Option<Seq<char>> {
    match o {
        Some(s) => Some(s@),
        None => None,
    }
}

/// The node `n` holds exactly the tree `t`.
pub open spec fn ast_node_is(n: PassDebugAstNode, t: AstTree) -> bool
    decreases t, 1int,
{
    &&& n.label@ == t.label
    &&& opt_view(n.target_id) == t.target_id
    &&& opt_view(n.role) == t.role
    &&& n.source_range == t.source_range
    &&& n.children@.len() == t.children.len()
    &&& ast_prefix_is(n.children@, t.children, t.children.len() as int)
}

/// The first `k` nodes of `ns` hold the first `k` trees of `ts`.
pub open spec fn ast_prefix_is(ns: Seq<PassDebugAstNode>, ts: Seq<AstTree>, k: int) -> bool
    decreases ts, 0int, k,
{
    if k <= 0 {
        true
    } else {
        ast_prefix_is(ns, ts, k - 1) && (k - 1 < ts.len() ==> ast_node_is(ns[k - 1], ts[k - 1]))
    }
}

/// The nodes `ns` hold exactly the trees `ts`, in order.
pub open spec fn ast_nodes_are(ns: Seq<PassDebugAstNode>, ts: Seq<AstTree>) -> bool {
    ns.len() == ts.len() && forall|i: int| 0 <= i < ts.len() ==> #[trigger] ast_node_is(ns[i], ts[i])
}

pub proof fn lemma_nodes_prefix(ns: Seq<PassDebugAstNode>, ts: Seq<AstTree>, k: int)
    requires
        ast_nodes_are(ns, ts),
    ensures
        ast_prefix_is(ns, ts, k),
    decreases k,
{
    if k > 0 {
        lemma_nodes_prefix(ns, ts, k - 1);
        if k - 1 < ts.len() {
            assert(ast_node_is(ns[k - 1], ts[k - 1]));
        }
    }
}

pub proof fn lemma_prefix_nodes(ns: Seq<PassDebugAstNode>, ts: Seq<AstTree>, k: int, i: int)
    requires
        ast_prefix_is(ns, ts, k),
        0 <= i < k,
        i < ts.len(),
    ensures
        ast_node_is(ns[i], ts[i]),
    decreases k,
{
    if i < k - 1 {
        lemma_prefix_nodes(ns, ts, k - 1, i);
    }
}

pub fn ast_leaf(label: String) -> (r: PassDebugAstNode)
    ensures
        ast_node_is(r, tree_leaf(label@)),
{
    PassDebugAstNode::leaf(label)
}

pub(crate) fn ast_branch(label: String, children: Vec<PassDebugAstNode>, Ghost(ts): Ghost<Seq<AstTree>>) -> (r:
    PassDebugAstNode)
    requires
        ast_nodes_are(children@, ts),
    ensures
        ast_node_is(r, tree_branch(label@, ts)),
{
    let r = PassDebugAstNode::branch(label, children);
    proof {
        lemma_nodes_prefix(children@, ts, ts.len() as int);
    }
    r
}

// ---------------------------------------------------------------------------
// Well-formed expression arenas
// ---------------------------------------------------------------------------

pub open spec fn handle_ok(h: Option<usize>, n: nat) -> bool {
    match h {
        Some(x) => x < n,
        None => true,
    }
}

/// Every present operand is an expression of an arena of `n`.
pub open spec fn operands_ok(ops: Seq<IrOperand>, n: nat) -> bool {
    forall|i: int| 0 <= i < ops.len() ==> handle_ok(#[trigger] ops[i].handle, n)
}

/// Every operand of the shape `kind` is an expression of an arena of `n`.
pub open spec fn expr_kind_ok(kind: IrExprKind, n: nat) -> bool {
    match kind {
        IrExprKind::Compose { components, .. } => forall|i: int|
            0 <= i < components@.len() ==> #[trigger] components@[i] < n,
        IrExprKind::Swizzle { vector, .. } => vector < n,
        IrExprKind::Operands { op } => operands_ok(spec_expr_op_operands(op), n),
        IrExprKind::Leaf { .. } => true,
    }
}

/// Every operand of every expression lies in the arena.
pub open spec fn exprs_ok(exprs: Seq<IrExpression>) -> bool {
    forall|i: int| 0 <= i < exprs.len() ==> expr_kind_ok(#[trigger] exprs[i].kind, exprs.len())
}

// ---------------------------------------------------------------------------
// Expression labels
// ---------------------------------------------------------------------------


pub open spec fn spec_vector_size_label(size: usize) -> Seq<char> {
    if size == 2 {
        "Bi"@
    } else if size == 3 {
        "Tri"@
    } else {
        "Quad"@
    }
}

pub open spec fn spec_component_name(c: IrSwizzleComponent) -> Seq<char> {
    match c {
        IrSwizzleComponent::X => "X"@,
        IrSwizzleComponent::Y => "Y"@,
        IrSwizzleComponent::Z => "Z"@,
        IrSwizzleComponent::W => "W"@,
    }
}

/// The debug rendering of a four-component swizzle pattern: `[X, Y, Z, W]`.
pub open spec fn spec_pattern_label(p: [IrSwizzleComponent; 4]) -> Seq<char> {
    "["@ + spec_component_name(p[0]) + ", "@ + spec_component_name(p[1]) + ", "@
        + spec_component_name(p[2]) + ", "@ + spec_component_name(p[3]) + "]"@
}

/// The kind part of an expression's label.
pub open spec fn spec_expr_kind_label(kind: IrExprKind) -> Seq<char> {
    match kind {
        IrExprKind::Compose { ty, .. } => "Compose ["@ + spec_decimal(ty as nat) + "]"@,
        IrExprKind::Swizzle { size, pattern, .. } => "Swizzle "@ + spec_vector_size_label(size)
            + " "@ + spec_pattern_label(pattern),
        IrExprKind::Operands { op } => spec_expr_op_label(op),
        IrExprKind::Leaf { leaf, .. } => spec_expr_leaf_label(leaf),
    }
}

/// `[h]: <kind>`.
pub open spec fn spec_expr_label(h: nat, kind: IrExprKind) -> Seq<char> {
    "["@ + spec_decimal(h) + "]: "@ + spec_expr_kind_label(kind)
}


pub fn vector_size_label(size: usize) -> (r: String)
    ensures
        r@ == spec_vector_size_label(size),
{
    if size == 2 {
        owned("Bi")
    } else if size == 3 {
        owned("Tri")
    } else {
        owned("Quad")
    }
}

pub fn component_name(c: IrSwizzleComponent) -> (r: &'static str)
    ensures
        r@ == spec_component_name(c),
{
    match c {
        IrSwizzleComponent::X => "X",
        IrSwizzleComponent::Y => "Y",
        IrSwizzleComponent::Z => "Z",
        IrSwizzleComponent::W => "W",
    }
}

pub fn pattern_label(p: [IrSwizzleComponent; 4]) -> (r: String)
    ensures
        r@ == spec_pattern_label(p),
{
    let mut r = owned("[");
    r.append(component_name(p[0]));
    r.append(", ");
    r.append(component_name(p[1]));
    r.append(", ");
    r.append(component_name(p[2]));
    r.append(", ");
    r.append(component_name(p[3]));
    r.append("]");
    r
}

pub fn expression_kind_label(kind: &IrExprKind) -> (r: String)
    ensures
        r@ == spec_expr_kind_label(*kind),
{
    match kind {
        IrExprKind::Compose { ty, .. } => {
            let d = decimal(*ty);
            concat3("Compose [", d.as_str(), "]")
        },
        IrExprKind::Swizzle { size, pattern, .. } => {
            let mut r = owned("Swizzle ");
            let s = vector_size_label(*size);
            r.append(s.as_str());
            r.append(" ");
            let p = pattern_label(*pattern);
            r.append(p.as_str());
            r
        },
        IrExprKind::Operands { op } => expr_op_label(op),
        IrExprKind::Leaf { leaf, .. } => expr_leaf_label(leaf),
    }
}

pub fn expression_label(h: usize, kind: &IrExprKind) -> (r: String)
    ensures
        r@ == spec_expr_label(h as nat, *kind),
{
    let d = decimal(h);
    let mut r = concat3("[", d.as_str(), "]: ");
    let k = expression_kind_label(kind);
    r.append(k.as_str());
    r
}

// ---------------------------------------------------------------------------
// Expression trees
// ---------------------------------------------------------------------------

/// The source range of an IR span.
pub open spec fn span_range(b: Seq<u8>, span: Option<IrSpan>) -> Option<PassDebugSourceRange> {
    match span {
        Some(s) => spec_source_range(b, s.start as int, s.end as int),
        None => None,
    }
}

pub fn source_range_from_span(source: &str, span: Option<IrSpan>) -> (r: Option<PassDebugSourceRange>)
    ensures
        r == span_range(source.spec_bytes(), span),
{
    match span {
        Some(s) => source_range_from_byte_range(source, core::ops::Range { start: s.start, end: s.end }),
        None => None,
    }
}

/// The outline of expression `h`, entered at nesting `depth`.
pub open spec fn spec_expr_tree(exprs: Seq<IrExpression>, h: nat, depth: nat, b: Seq<u8>) -> AstTree
    decreases MAX_EXPR_DEPTH - depth, 3int, 0int,
{
    let e = exprs[h as int];
    AstTree {
        label: spec_expr_label(h, e.kind),
        target_id: None,
        role: None,
        source_range: span_range(b, e.span),
        children: spec_expr_children(exprs, e.kind, depth, b),
    }
}

/// The children of an expression of shape `kind` at nesting `depth`: `...`
/// once the depth limit is reached, else one branch per present operand.
pub open spec fn spec_expr_children(exprs: Seq<IrExpression>, kind: IrExprKind, depth: nat, b: Seq<u8>) -> Seq<
    AstTree,
>
    decreases MAX_EXPR_DEPTH - depth, 2int, 0int,
{
    if depth >= MAX_EXPR_DEPTH {
        seq![tree_leaf("..."@)]
    } else {
        match kind {
            IrExprKind::Compose { components, .. } => spec_component_trees(
                exprs,
                components@,
                depth,
                b,
            ),
            IrExprKind::Swizzle { vector, .. } => seq![
                tree_branch("vector"@, seq![spec_expr_tree(exprs, vector as nat, depth + 1, b)]),
            ],
            IrExprKind::Operands { op } => spec_operand_trees(exprs, spec_expr_op_operands(op), depth, b),
            IrExprKind::Leaf { pretty, .. } => seq![tree_leaf(pretty@)],
        }
    }
}

/// One `label` branch holding the operand's expression for each present operand.
pub open spec fn spec_operand_trees(exprs: Seq<IrExpression>, ops: Seq<IrOperand>, depth: nat, b: Seq<u8>) -> Seq<
    AstTree,
>
    decreases MAX_EXPR_DEPTH - depth, 1int, ops.len(),
{
    if depth >= MAX_EXPR_DEPTH || ops.len() == 0 {
        seq![]
    } else {
        let prev = spec_operand_trees(exprs, ops.drop_last(), depth, b);
        match ops.last().handle {
            Some(h) => prev.push(
                tree_branch(ops.last().label@, seq![spec_expr_tree(exprs, h as nat, depth + 1, b)]),
            ),
            None => prev,
        }
    }
}

/// One `component i` branch per component.
pub open spec fn spec_component_trees(exprs: Seq<IrExpression>, comps: Seq<usize>, depth: nat, b: Seq<u8>) -> Seq<
    AstTree,
>
    decreases MAX_EXPR_DEPTH - depth, 1int, comps.len(),
{
    if depth >= MAX_EXPR_DEPTH || comps.len() == 0 {
        seq![]
    } else {
        spec_component_trees(exprs, comps.drop_last(), depth, b).push(
            tree_branch(
                "component "@ + spec_decimal((comps.len() - 1) as nat),
                seq![spec_expr_tree(exprs, comps.last() as nat, depth + 1, b)],
            ),
        )
    }
}

pub fn expression_node(exprs: &Vec<IrExpression>, h: usize, source: &str, depth: usize) -> (r:
    PassDebugAstNode)
    requires
        h < exprs@.len(),
        exprs_ok(exprs@),
    ensures
        ast_node_is(r, spec_expr_tree(exprs@, h as nat, depth as nat, source.spec_bytes())),
    decreases MAX_EXPR_DEPTH - depth, 3int, 0int,
{
    let e = &exprs[h];
    let label = expression_label(h, &e.kind);
    let children = expression_children(exprs, &e.kind, source, depth);
    let range = source_range_from_span(source, e.span);
    let ghost ts = spec_expr_children(exprs@, e.kind, depth as nat, source.spec_bytes());
    let r = ast_branch(label, children, Ghost(ts)).with_source_range(range);
    r
}

pub fn expression_children(exprs: &Vec<IrExpression>, kind: &IrExprKind, source: &str, depth: usize) -> (r: Vec<PassDebugAstNode>)
    requires
        exprs_ok(exprs@),
        expr_kind_ok(*kind, exprs@.len()),
    ensures
        ast_nodes_are(r@, spec_expr_children(exprs@, *kind, depth as nat, source.spec_bytes())),
    decreases MAX_EXPR_DEPTH - depth, 2int, 0int,
{
    if depth >= MAX_EXPR_DEPTH {
        let mut v = Vec::new();
        v.push(ast_leaf(owned("...")));
        return v;
    }
    match kind {
        IrExprKind::Compose { components, .. } => component_nodes(exprs, components, source, depth),
        IrExprKind::Swizzle { vector, .. } => {
            let child = expression_node(exprs, *vector, source, depth + 1);
            let mut kids = Vec::new();
            kids.push(child);
            let ghost kts = seq![spec_expr_tree(exprs@, *vector as nat, depth as nat + 1, source.spec_bytes())];
            assert(ast_nodes_are(kids@, kts));
            let mut v = Vec::new();
            v.push(ast_branch(owned("vector"), kids, Ghost(kts)));
            v
        },
        IrExprKind::Operands { op } => {
            let ops = expr_op_operands(op);
            operand_nodes(exprs, &ops, source, depth)
        },
        IrExprKind::Leaf { pretty, .. } => {
            let mut v = Vec::new();
            v.push(ast_leaf(pretty.clone()));
            v
        },
    }
}

pub fn operand_nodes(exprs: &Vec<IrExpression>, ops: &Vec<IrOperand>, source: &str, depth: usize) -> (r: Vec<PassDebugAstNode>)
    requires
        exprs_ok(exprs@),
        depth < MAX_EXPR_DEPTH,
        forall|i: int| 0 <= i < ops@.len() ==> handle_ok(#[trigger] ops@[i].handle, exprs@.len()),
    ensures
        ast_nodes_are(r@, spec_operand_trees(exprs@, ops@, depth as nat, source.spec_bytes())),
    decreases MAX_EXPR_DEPTH - depth, 1int, ops@.len(),
{
    let mut v: Vec<PassDebugAstNode> = Vec::new();
    let ghost mut ts: Seq<AstTree> = seq![];
    let mut i: usize = 0;
    while i < ops.len()
        invariant
            exprs_ok(exprs@),
            depth < MAX_EXPR_DEPTH,
            forall|j: int| 0 <= j < ops@.len() ==> handle_ok(#[trigger] ops@[j].handle, exprs@.len()),
            i <= ops@.len(),
            ts == spec_operand_trees(exprs@, ops@.take(i as int), depth as nat, source.spec_bytes()),
            ast_nodes_are(v@, ts),
        decreases ops@.len() - i,
    {
        assert(ops@.take(i + 1).drop_last() =~= ops@.take(i as int));
        assert(ops@.take(i + 1).last() == ops@[i as int]);
        let op = &ops[i];
        match op.handle {
            Some(h) => {
                let child = expression_node(exprs, h, source, depth + 1);
                let mut kids = Vec::new();
                kids.push(child);
                let ghost kts = seq![spec_expr_tree(exprs@, h as nat, depth as nat + 1, source.spec_bytes())];
                assert(ast_nodes_are(kids@, kts));
                let node = ast_branch(owned(op.label), kids, Ghost(kts));
                v.push(node);
                proof {
                    ts = ts.push(tree_branch(op.label@, kts));
                    assert(ast_nodes_are(v@, ts)) by {
                        assert forall|j: int| 0 <= j < ts.len() implies #[trigger] ast_node_is(v@[j], ts[j]) by {
                            if j < ts.len() - 1 {
                            }
                        }
                    }
                }
            },
            None => {},
        }
        i = i + 1;
    }
    assert(ops@.take(ops@.len() as int) =~= ops@);
    v
}

pub fn component_nodes(exprs: &Vec<IrExpression>, comps: &Vec<usize>, source: &str, depth: usize) -> (r: Vec<PassDebugAstNode>)
    requires
        exprs_ok(exprs@),
        depth < MAX_EXPR_DEPTH,
        forall|i: int| 0 <= i < comps@.len() ==> #[trigger] comps@[i] < exprs@.len(),
    ensures
        ast_nodes_are(r@, spec_component_trees(exprs@, comps@, depth as nat, source.spec_bytes())),
    decreases MAX_EXPR_DEPTH - depth, 1int, comps@.len(),
{
    let mut v: Vec<PassDebugAstNode> = Vec::new();
    let ghost mut ts: Seq<AstTree> = seq![];
    let mut i: usize = 0;
    while i < comps.len()
        invariant
            exprs_ok(exprs@),
            depth < MAX_EXPR_DEPTH,
            forall|j: int| 0 <= j < comps@.len() ==> #[trigger] comps@[j] < exprs@.len(),
            i <= comps@.len(),
            ts == spec_component_trees(exprs@, comps@.take(i as int), depth as nat, source.spec_bytes()),
            ast_nodes_are(v@, ts),
        decreases comps@.len() - i,
    {
        assert(comps@.take(i + 1).drop_last() =~= comps@.take(i as int));
        assert(comps@.take(i + 1).last() == comps@[i as int]);
        let h = comps[i];
        let child = expression_node(exprs, h, source, depth + 1);
        let mut kids = Vec::new();
        kids.push(child);
        let ghost kts = seq![spec_expr_tree(exprs@, h as nat, depth as nat + 1, source.spec_bytes())];
        assert(ast_nodes_are(kids@, kts));
        let d = decimal(i);
        let label = concat("component ", d.as_str());
        let node = ast_branch(label, kids, Ghost(kts));
        v.push(node);
        proof {
            ts = ts.push(tree_branch("component "@ + spec_decimal(i as nat), kts));
            assert(ast_nodes_are(v@, ts)) by {
                assert forall|j: int| 0 <= j < ts.len() implies #[trigger] ast_node_is(v@[j], ts[j]) by {
                    if j < ts.len() - 1 {
                    }
                }
            }
        }
        i = i + 1;
    }
    assert(comps@.take(comps@.len() as int) =~= comps@);
    v
}

// ---------------------------------------------------------------------------
// Statements
// ---------------------------------------------------------------------------

/// Every expression a statement names lies in an arena of `n` expressions.
pub open spec fn stmt_ok(s: IrStatement, n: nat) -> bool
    decreases s, 1int,
{
    match s {
        IrStatement::Emit { start, end } => start <= end <= n,
        IrStatement::Block { body } => block_ok(body@, n, body@.len() as int),
        IrStatement::If { condition, accept, reject } => condition < n && block_ok(
            accept@,
            n,
            accept@.len() as int,
        ) && block_ok(reject@, n, reject@.len() as int),
        IrStatement::Switch { selector, cases } => selector < n && cases_ok(
            cases@,
            n,
            cases@.len() as int,
        ),
        IrStatement::Loop { body, continuing, break_if } => block_ok(body@, n, body@.len() as int)
            && block_ok(continuing@, n, continuing@.len() as int) && handle_ok(break_if, n),
        IrStatement::Return { value } => handle_ok(value, n),
        IrStatement::Call { arguments, result, .. } => (forall|i: int|
            0 <= i < arguments@.len() ==> #[trigger] arguments@[i] < n) && handle_ok(result, n),
        IrStatement::Operands { op } => operands_ok(spec_stmt_op_operands(op), n),
        IrStatement::Leaf { .. } => true,
    }
}

/// The first `k` statements of `b` are well formed.
pub open spec fn block_ok(b: Seq<IrStatement>, n: nat, k: int) -> bool
    decreases b, 0int, k,
{
    if k <= 0 {
        true
    } else {
        block_ok(b, n, k - 1) && (k - 1 < b.len() ==> stmt_ok(b[k - 1], n))
    }
}

/// The bodies of the first `k` cases are well formed.
pub open spec fn cases_ok(cs: Seq<IrSwitchCase>, n: nat, k: int) -> bool
    decreases cs, 0int, k,
{
    if k <= 0 {
        true
    } else {
        cases_ok(cs, n, k - 1) && (k - 1 < cs.len() ==> block_ok(
            cs[k - 1].body@,
            n,
            cs[k - 1].body@.len() as int,
        ))
    }
}

/// The nesting depth one level further in, counted up to the expression
/// depth limit (beyond it every expression is shown alike).
pub open spec fn next_depth(depth: nat) -> nat {
    if depth < MAX_EXPR_DEPTH {
        depth + 1
    } else {
        depth
    }
}

pub fn next_depth_exec(depth: usize) -> (r: usize)
    ensures
        r == next_depth(depth as nat),
{
    if depth < MAX_EXPR_DEPTH {
        depth + 1
    } else {
        depth
    }
}

/// The kind part of a statement's label.
pub open spec fn spec_stmt_kind_label(s: IrStatement) -> Seq<char> {
    match s {
        IrStatement::Emit { start, end } => "Emit ["@ + spec_decimal(start as nat) + ".."@
            + spec_decimal(end as nat) + "]"@,
        IrStatement::Block { .. } => "Block"@,
        IrStatement::If { .. } => "If"@,
        IrStatement::Switch { .. } => "Switch"@,
        IrStatement::Loop { .. } => "Loop"@,
        IrStatement::Return { .. } => "Return"@,
        IrStatement::Call { function, .. } => "Call ["@ + spec_decimal(function as nat) + "]"@,
        IrStatement::Operands { op } => spec_stmt_op_label(op),
        IrStatement::Leaf { leaf, .. } => spec_stmt_leaf_label(leaf),
    }
}

pub fn statement_kind_label(s: &IrStatement) -> (r: String)
    ensures
        r@ == spec_stmt_kind_label(*s),
{
    match s {
        IrStatement::Emit { start, end } => {
            let a = decimal(*start);
            let b = decimal(*end);
            let mut r = concat3("Emit [", a.as_str(), "..");
            r.append(b.as_str());
            r.append("]");
            r
        },
        IrStatement::Block { .. } => owned("Block"),
        IrStatement::If { .. } => owned("If"),
        IrStatement::Switch { .. } => owned("Switch"),
        IrStatement::Loop { .. } => owned("Loop"),
        IrStatement::Return { .. } => owned("Return"),
        IrStatement::Call { function, .. } => {
            let d = decimal(*function);
            concat3("Call [", d.as_str(), "]")
        },
        IrStatement::Operands { op } => stmt_op_label(op),
        IrStatement::Leaf { leaf, .. } => stmt_leaf_label(leaf),
    }
}

/// A `label` branch holding expression `h` one level further in.
pub open spec fn spec_expr_branch(
    label: Seq<char>,
    exprs: Seq<IrExpression>,
    h: nat,
    depth: nat,
    b: Seq<u8>,
) -> AstTree {
    tree_branch(label, seq![spec_expr_tree(exprs, h, next_depth(depth), b)])
}

/// The expressions with handles in `[start, end)`, one level further in.
pub open spec fn spec_emit_trees(exprs: Seq<IrExpression>, start: int, end: int, depth: nat, b: Seq<u8>) -> Seq<
    AstTree,
>
    decreases end - start,
{
    if end <= start {
        seq![]
    } else {
        spec_emit_trees(exprs, start, end - 1, depth, b).push(
            spec_expr_tree(exprs, (end - 1) as nat, next_depth(depth), b),
        )
    }
}

/// One `arg i` branch per call argument.
pub open spec fn spec_arg_trees(exprs: Seq<IrExpression>, args: Seq<usize>, depth: nat, b: Seq<u8>) -> Seq<
    AstTree,
>
    decreases args.len(),
{
    if args.len() == 0 {
        seq![]
    } else {
        spec_arg_trees(exprs, args.drop_last(), depth, b).push(
            spec_expr_branch(
                "arg "@ + spec_decimal((args.len() - 1) as nat),
                exprs,
                args.last() as nat,
                depth,
                b,
            ),
        )
    }
}

/// One `label` branch per present operand of a statement.
pub open spec fn spec_stmt_operand_trees(exprs: Seq<IrExpression>, ops: Seq<IrOperand>, depth: nat, b: Seq<u8>) -> Seq<
    AstTree,
>
    decreases ops.len(),
{
    if ops.len() == 0 {
        seq![]
    } else {
        let prev = spec_stmt_operand_trees(exprs, ops.drop_last(), depth, b);
        match ops.last().handle {
            Some(h) => prev.push(spec_expr_branch(ops.last().label@, exprs, h as nat, depth, b)),
            None => prev,
        }
    }
}

/// The children of a statement nested at `depth`.
pub open spec fn spec_stmt_children(exprs: Seq<IrExpression>, s: IrStatement, depth: nat, b: Seq<u8>) -> Seq<
    AstTree,
>
    decreases s, 1int,
{
    match s {
        IrStatement::Emit { start, end } => spec_emit_trees(exprs, start as int, end as int, depth, b),
        IrStatement::Block { body } => spec_block_trees(exprs, body@, next_depth(depth), b),
        IrStatement::If { condition, accept, reject } => seq![
            spec_expr_branch("condition"@, exprs, condition as nat, depth, b),
            tree_branch("accept"@, spec_block_trees(exprs, accept@, next_depth(depth), b)),
            tree_branch("reject"@, spec_block_trees(exprs, reject@, next_depth(depth), b)),
        ],
        IrStatement::Switch { selector, cases } => seq![
            spec_expr_branch("selector"@, exprs, selector as nat, depth, b),
        ] + spec_case_trees(exprs, cases@, depth, b),
        IrStatement::Loop { body, continuing, break_if } => seq![
            tree_branch("body"@, spec_block_trees(exprs, body@, next_depth(depth), b)),
            tree_branch("continuing"@, spec_block_trees(exprs, continuing@, next_depth(depth), b)),
            tree_branch(
                "break_if"@,
                match break_if {
                    Some(h) => seq![spec_expr_tree(exprs, h as nat, next_depth(depth), b)],
                    None => seq![tree_leaf("none"@)],
                },
            ),
        ],
        IrStatement::Return { value } => match value {
            Some(h) => seq![spec_expr_tree(exprs, h as nat, next_depth(depth), b)],
            None => seq![],
        },
        IrStatement::Call { arguments, result, .. } => spec_arg_trees(
            exprs,
            arguments@,
            depth,
            b,
        ) + match result {
            Some(h) => seq![spec_expr_branch("result"@, exprs, h as nat, depth, b)],
            None => seq![],
        },
        IrStatement::Operands { op } => spec_stmt_operand_trees(exprs, spec_stmt_op_operands(op), depth, b),
        IrStatement::Leaf { pretty, .. } => seq![tree_leaf(pretty@)],
    }
}

/// The label of the statement at `index` of a block: `index: <kind>`.
pub open spec fn spec_block_item_label(index: nat, s: IrStatement) -> Seq<char> {
    spec_decimal(index) + ": "@ + spec_stmt_kind_label(s)
}

/// One branch per statement of a block nested at `depth`.
pub open spec fn spec_block_trees(exprs: Seq<IrExpression>, block: Seq<IrStatement>, depth: nat, b: Seq<u8>) -> Seq<
    AstTree,
>
    decreases block, 0int,
{
    if block.len() == 0 {
        seq![]
    } else {
        let last = block[block.len() - 1];
        spec_block_trees(exprs, block.subrange(0, block.len() - 1), depth, b).push(
            tree_branch(
                spec_block_item_label((block.len() - 1) as nat, last),
                spec_stmt_children(exprs, last, depth, b),
            ),
        )
    }
}

/// The label of a switch case: `case <value> fall_through=<bool>`.
pub open spec fn spec_case_label(c: IrSwitchCase) -> Seq<char> {
    "case "@ + c.value@ + " fall_through="@ + spec_bool_label(c.fall_through)
}

/// One branch per switch case, holding the case's body.
pub open spec fn spec_case_trees(exprs: Seq<IrExpression>, cases: Seq<IrSwitchCase>, depth: nat, b: Seq<u8>) -> Seq<
    AstTree,
>
    decreases cases, 0int,
{
    if cases.len() == 0 {
        seq![]
    } else {
        let last = cases[cases.len() - 1];
        spec_case_trees(exprs, cases.subrange(0, cases.len() - 1), depth, b).push(
            tree_branch(
                spec_case_label(last),
                spec_block_trees(exprs, last.body@, next_depth(depth), b),
            ),
        )
    }
}

pub proof fn lemma_block_ok_at(b: Seq<IrStatement>, n: nat, k: int, i: int)
    requires
        block_ok(b, n, k),
        0 <= i < k,
        i < b.len(),
    ensures
        stmt_ok(b[i], n),
    decreases k,
{
    if i < k - 1 {
        lemma_block_ok_at(b, n, k - 1, i);
    }
}

pub proof fn lemma_cases_ok_at(cs: Seq<IrSwitchCase>, n: nat, k: int, i: int)
    requires
        cases_ok(cs, n, k),
        0 <= i < k,
        i < cs.len(),
    ensures
        block_ok(cs[i].body@, n, cs[i].body@.len() as int),
    decreases k,
{
    if i < k - 1 {
        lemma_cases_ok_at(cs, n, k - 1, i);
    }
}

/// Pushing a node that holds `t` onto nodes that hold `ts`.
pub proof fn lemma_nodes_push(ns: Seq<PassDebugAstNode>, ts: Seq<AstTree>, n: PassDebugAstNode, t: AstTree)
    requires
        ast_nodes_are(ns, ts),
        ast_node_is(n, t),
    ensures
        ast_nodes_are(ns.push(n), ts.push(t)),
{
    assert forall|i: int| 0 <= i < ts.push(t).len() implies #[trigger] ast_node_is(
        ns.push(n)[i],
        ts.push(t)[i],
    ) by {
        if i < ts.len() {
            assert(ast_node_is(ns[i], ts[i]));
        }
    }
}

/// Appending nodes that hold `ts2` to nodes that hold `ts1`.
pub proof fn lemma_nodes_append(
    ns1: Seq<PassDebugAstNode>,
    ts1: Seq<AstTree>,
    ns2: Seq<PassDebugAstNode>,
    ts2: Seq<AstTree>,
)
    requires
        ast_nodes_are(ns1, ts1),
        ast_nodes_are(ns2, ts2),
    ensures
        ast_nodes_are(ns1 + ns2, ts1 + ts2),
{
    assert forall|i: int| 0 <= i < (ts1 + ts2).len() implies #[trigger] ast_node_is(
        (ns1 + ns2)[i],
        (ts1 + ts2)[i],
    ) by {
        if i < ts1.len() {
            assert(ast_node_is(ns1[i], ts1[i]));
        } else {
            assert(ast_node_is(ns2[i - ts1.len()], ts2[i - ts1.len()]));
        }
    }
}

/// A vector of one node.
pub(crate) fn one_node(n: PassDebugAstNode, Ghost(t): Ghost<AstTree>) -> (r: Vec<PassDebugAstNode>)
    requires
        ast_node_is(n, t),
    ensures
        ast_nodes_are(r@, seq![t]),
{
    let mut v = Vec::new();
    v.push(n);
    assert(v@[0] == n);
    v
}

pub fn expression_branch(label: String, exprs: &Vec<IrExpression>, h: usize, depth: usize, source: &str) -> (r:
    PassDebugAstNode)
    requires
        h < exprs@.len(),
        exprs_ok(exprs@),
    ensures
        ast_node_is(r, spec_expr_branch(label@, exprs@, h as nat, depth as nat, source.spec_bytes())),
{
    let next = next_depth_exec(depth);
    let child = expression_node(exprs, h, source, next);
    let ghost t = spec_expr_tree(exprs@, h as nat, next as nat, source.spec_bytes());
    let kids = one_node(child, Ghost(t));
    let ghost ts = seq![t];
    ast_branch(label, kids, Ghost(ts))
}

pub fn emit_nodes(exprs: &Vec<IrExpression>, start: usize, end: usize, depth: usize, source: &str) -> (r: Vec<
    PassDebugAstNode,
>)
    requires
        exprs_ok(exprs@),
        start <= end <= exprs@.len(),
    ensures
        ast_nodes_are(r@, spec_emit_trees(exprs@, start as int, end as int, depth as nat, source.spec_bytes())),
{
    let next = next_depth_exec(depth);
    let mut v: Vec<PassDebugAstNode> = Vec::new();
    let mut h = start;
    while h < end
        invariant
            exprs_ok(exprs@),
            start <= h <= end <= exprs@.len(),
            next == next_depth(depth as nat),
            ast_nodes_are(v@, spec_emit_trees(exprs@, start as int, h as int, depth as nat, source.spec_bytes())),
        decreases end - h,
    {
        let node = expression_node(exprs, h, source, next);
        proof {
            lemma_nodes_push(
                v@,
                spec_emit_trees(exprs@, start as int, h as int, depth as nat, source.spec_bytes()),
                node,
                spec_expr_tree(exprs@, h as nat, next as nat, source.spec_bytes()),
            );
        }
        v.push(node);
        h = h + 1;
    }
    v
}

pub fn argument_nodes(exprs: &Vec<IrExpression>, args: &Vec<usize>, depth: usize, source: &str) -> (r: Vec<
    PassDebugAstNode,
>)
    requires
        exprs_ok(exprs@),
        forall|i: int| 0 <= i < args@.len() ==> #[trigger] args@[i] < exprs@.len(),
    ensures
        ast_nodes_are(r@, spec_arg_trees(exprs@, args@, depth as nat, source.spec_bytes())),
{
    let mut v: Vec<PassDebugAstNode> = Vec::new();
    let mut i: usize = 0;
    while i < args.len()
        invariant
            exprs_ok(exprs@),
            forall|j: int| 0 <= j < args@.len() ==> #[trigger] args@[j] < exprs@.len(),
            i <= args@.len(),
            ast_nodes_are(v@, spec_arg_trees(exprs@, args@.take(i as int), depth as nat, source.spec_bytes())),
        decreases args@.len() - i,
    {
        assert(args@.take(i + 1).drop_last() =~= args@.take(i as int));
        assert(args@.take(i + 1).last() == args@[i as int]);
        let d = decimal(i);
        let label = concat("arg ", d.as_str());
        let node = expression_branch(label, exprs, args[i], depth, source);
        proof {
            lemma_nodes_push(
                v@,
                spec_arg_trees(exprs@, args@.take(i as int), depth as nat, source.spec_bytes()),
                node,
                spec_expr_branch("arg "@ + spec_decimal(i as nat), exprs@, args@[i as int] as nat, depth as nat, source.spec_bytes()),
            );
        }
        v.push(node);
        i = i + 1;
    }
    assert(args@.take(args@.len() as int) =~= args@);
    v
}

pub fn statement_operand_nodes(exprs: &Vec<IrExpression>, ops: &Vec<IrOperand>, depth: usize, source: &str) -> (r:
    Vec<PassDebugAstNode>)
    requires
        exprs_ok(exprs@),
        forall|i: int| 0 <= i < ops@.len() ==> handle_ok(#[trigger] ops@[i].handle, exprs@.len()),
    ensures
        ast_nodes_are(r@, spec_stmt_operand_trees(exprs@, ops@, depth as nat, source.spec_bytes())),
{
    let mut v: Vec<PassDebugAstNode> = Vec::new();
    let mut i: usize = 0;
    while i < ops.len()
        invariant
            exprs_ok(exprs@),
            forall|j: int| 0 <= j < ops@.len() ==> handle_ok(#[trigger] ops@[j].handle, exprs@.len()),
            i <= ops@.len(),
            ast_nodes_are(v@, spec_stmt_operand_trees(exprs@, ops@.take(i as int), depth as nat, source.spec_bytes())),
        decreases ops@.len() - i,
    {
        assert(ops@.take(i + 1).drop_last() =~= ops@.take(i as int));
        assert(ops@.take(i + 1).last() == ops@[i as int]);
        let op = &ops[i];
        match op.handle {
            Some(h) => {
                let node = expression_branch(owned(op.label), exprs, h, depth, source);
                proof {
                    lemma_nodes_push(
                        v@,
                        spec_stmt_operand_trees(exprs@, ops@.take(i as int), depth as nat, source.spec_bytes()),
                        node,
                        spec_expr_branch(op.label@, exprs@, h as nat, depth as nat, source.spec_bytes()),
                    );
                }
                v.push(node);
            },
            None => {},
        }
        i = i + 1;
    }
    assert(ops@.take(ops@.len() as int) =~= ops@);
    v
}

pub fn block_to_nodes(exprs: &Vec<IrExpression>, block: &Vec<IrStatement>, depth: usize, source: &str) -> (r: Vec<
    PassDebugAstNode,
>)
    requires
        exprs_ok(exprs@),
        block_ok(block@, exprs@.len(), block@.len() as int),
    ensures
        ast_nodes_are(r@, spec_block_trees(exprs@, block@, depth as nat, source.spec_bytes())),
    decreases block@, 0int,
{
    let mut v: Vec<PassDebugAstNode> = Vec::new();
    let mut i: usize = 0;
    while i < block.len()
        invariant
            exprs_ok(exprs@),
            block_ok(block@, exprs@.len(), block@.len() as int),
            i <= block@.len(),
            ast_nodes_are(v@, spec_block_trees(exprs@, block@.take(i as int), depth as nat, source.spec_bytes())),
        decreases block@.len() - i,
    {
        assert(block@.take(i + 1).subrange(0, i as int) =~= block@.take(i as int));
        assert(block@.take(i + 1)[i as int] == block@[i as int]);
        proof {
            lemma_block_ok_at(block@, exprs@.len(), block@.len() as int, i as int);
        }
        let stmt = &block[i];
        let children = statement_children(exprs, stmt, depth, source);
        let d = decimal(i);
        let mut label = concat(d.as_str(), ": ");
        let k = statement_kind_label(stmt);
        label.append(k.as_str());
        let ghost t = tree_branch(
            spec_block_item_label(i as nat, *stmt),
            spec_stmt_children(exprs@, *stmt, depth as nat, source.spec_bytes()),
        );
        let node = ast_branch(label, children, Ghost(t.children));
        proof {
            lemma_nodes_push(
                v@,
                spec_block_trees(exprs@, block@.take(i as int), depth as nat, source.spec_bytes()),
                node,
                t,
            );
        }
        v.push(node);
        i = i + 1;
    }
    assert(block@.take(block@.len() as int) =~= block@);
    v
}

pub fn case_nodes(exprs: &Vec<IrExpression>, cases: &Vec<IrSwitchCase>, depth: usize, source: &str) -> (r: Vec<
    PassDebugAstNode,
>)
    requires
        exprs_ok(exprs@),
        cases_ok(cases@, exprs@.len(), cases@.len() as int),
    ensures
        ast_nodes_are(r@, spec_case_trees(exprs@, cases@, depth as nat, source.spec_bytes())),
    decreases cases@, 0int,
{
    let next = next_depth_exec(depth);
    let mut v: Vec<PassDebugAstNode> = Vec::new();
    let mut i: usize = 0;
    while i < cases.len()
        invariant
            exprs_ok(exprs@),
            cases_ok(cases@, exprs@.len(), cases@.len() as int),
            next == next_depth(depth as nat),
            i <= cases@.len(),
            ast_nodes_are(v@, spec_case_trees(exprs@, cases@.take(i as int), depth as nat, source.spec_bytes())),
        decreases cases@.len() - i,
    {
        assert(cases@.take(i + 1).subrange(0, i as int) =~= cases@.take(i as int));
        assert(cases@.take(i + 1)[i as int] == cases@[i as int]);
        proof {
            lemma_cases_ok_at(cases@, exprs@.len(), cases@.len() as int, i as int);
        }
        let case = &cases[i];
        let body = block_to_nodes(exprs, &case.body, next, source);
        let mut label = concat3("case ", case.value.as_str(), " fall_through=");
        let fall = bool_label(case.fall_through);
        label.append(fall.as_str());
        let ghost t = tree_branch(
            spec_case_label(*case),
            spec_block_trees(exprs@, case.body@, next as nat, source.spec_bytes()),
        );
        let node = ast_branch(label, body, Ghost(t.children));
        proof {
            lemma_nodes_push(
                v@,
                spec_case_trees(exprs@, cases@.take(i as int), depth as nat, source.spec_bytes()),
                node,
                t,
            );
        }
        v.push(node);
        i = i + 1;
    }
    assert(cases@.take(cases@.len() as int) =~= cases@);
    v
}

pub fn statement_children(exprs: &Vec<IrExpression>, stmt: &IrStatement, depth: usize, source: &str) -> (r: Vec<
    PassDebugAstNode,
>)
    requires
        exprs_ok(exprs@),
        stmt_ok(*stmt, exprs@.len()),
    ensures
        ast_nodes_are(r@, spec_stmt_children(exprs@, *stmt, depth as nat, source.spec_bytes())),
    decreases stmt, 1int,
{
    let ghost b = source.spec_bytes();
    let next = next_depth_exec(depth);
    match stmt {
        IrStatement::Emit { start, end } => emit_nodes(exprs, *start, *end, depth, source),
        IrStatement::Block { body } => block_to_nodes(exprs, body, next, source),
        IrStatement::If { condition, accept, reject } => {
            let c = expression_branch(owned("condition"), exprs, *condition, depth, source);
            let a = block_to_nodes(exprs, accept, next, source);
            let ghost ta = spec_block_trees(exprs@, accept@, next as nat, b);
            let an = ast_branch(owned("accept"), a, Ghost(ta));
            let rj = block_to_nodes(exprs, reject, next, source);
            let ghost tr = spec_block_trees(exprs@, reject@, next as nat, b);
            let rn = ast_branch(owned("reject"), rj, Ghost(tr));
            let mut v = Vec::new();
            v.push(c);
            v.push(an);
            v.push(rn);
            let ghost ts = spec_stmt_children(exprs@, *stmt, depth as nat, b);
            assert(ast_node_is(v@[0], ts[0]));
            assert(ast_node_is(v@[1], ts[1]));
            assert(ast_node_is(v@[2], ts[2]));
            v
        },
        IrStatement::Switch { selector, cases } => {
            let sel = expression_branch(owned("selector"), exprs, *selector, depth, source);
            let ghost t0 = spec_expr_branch("selector"@, exprs@, *selector as nat, depth as nat, b);
            let mut v = one_node(sel, Ghost(t0));
            let mut rest = case_nodes(exprs, cases, depth, source);
            proof {
                lemma_nodes_append(v@, seq![t0], rest@, spec_case_trees(exprs@, cases@, depth as nat, b));
            }
            v.append(&mut rest);
            v
        },
        IrStatement::Loop { body, continuing, break_if } => {
            let bn = block_to_nodes(exprs, body, next, source);
            let ghost tb = spec_block_trees(exprs@, body@, next as nat, b);
            let body_node = ast_branch(owned("body"), bn, Ghost(tb));
            let cn = block_to_nodes(exprs, continuing, next, source);
            let ghost tc = spec_block_trees(exprs@, continuing@, next as nat, b);
            let cont_node = ast_branch(owned("continuing"), cn, Ghost(tc));
            let (bi, Ghost(tbi)) = match break_if {
                Some(h) => {
                    let e = expression_node(exprs, *h, source, next);
                    let ghost t = spec_expr_tree(exprs@, *h as nat, next as nat, b);
                    let ghost ts = seq![t];
                    (one_node(e, Ghost(t)), Ghost(ts))
                },
                None => {
                    let l = ast_leaf(owned("none"));
                    let ghost t = tree_leaf("none"@);
                    let ghost ts = seq![t];
                    (one_node(l, Ghost(t)), Ghost(ts))
                },
            };
            let bi_node = ast_branch(owned("break_if"), bi, Ghost(tbi));
            let mut v = Vec::new();
            v.push(body_node);
            v.push(cont_node);
            v.push(bi_node);
            let ghost ts = spec_stmt_children(exprs@, *stmt, depth as nat, b);
            assert(ast_node_is(v@[0], ts[0]));
            assert(ast_node_is(v@[1], ts[1]));
            assert(ast_node_is(v@[2], ts[2]));
            v
        },
        IrStatement::Return { value } => match value {
            Some(h) => {
                let e = expression_node(exprs, *h, source, next);
                one_node(e, Ghost(spec_expr_tree(exprs@, *h as nat, next as nat, b)))
            },
            None => Vec::new(),
        },
        IrStatement::Call { arguments, result, .. } => {
            let mut v = argument_nodes(exprs, arguments, depth, source);
            match result {
                Some(h) => {
                    let rn = expression_branch(owned("result"), exprs, *h, depth, source);
                    proof {
                        lemma_nodes_push(
                            v@,
                            spec_arg_trees(exprs@, arguments@, depth as nat, b),
                            rn,
                            spec_expr_branch("result"@, exprs@, *h as nat, depth as nat, b),
                        );
                    }
                    v.push(rn);
                },
                None => {
                    assert(spec_arg_trees(exprs@, arguments@, depth as nat, b) + seq![] =~= spec_arg_trees(
                        exprs@,
                        arguments@,
                        depth as nat,
                        b,
                    ));
                },
            }
            v
        },
        IrStatement::Operands { op } => {
            let ops = stmt_op_operands(op);
            statement_operand_nodes(exprs, &ops, depth, source)
        },
        IrStatement::Leaf { pretty, .. } => {
            let l = ast_leaf(pretty.clone());
            one_node(l, Ghost(tree_leaf(pretty@)))
        },
    }
}

// ---------------------------------------------------------------------------
// Targets
// ---------------------------------------------------------------------------

/// The source range of the first target with id `id`.
pub open spec fn spec_target_source_range(targets: Seq<PassDebugDependencyTarget>, id: Seq<char>) -> Option<
    PassDebugSourceRange,
>
    decreases targets.len(),
{
    if targets.len() == 0 {
        None
    } else if targets[0].id@ == id {
        targets[0].source_range
    } else {
        spec_target_source_range(targets.drop_first(), id)
    }
}

pub fn target_source_range(targets: &Vec<PassDebugDependencyTarget>, target_id: &String) -> (r: Option<
    PassDebugSourceRange,
>)
    ensures
        r == spec_target_source_range(targets@, target_id@),
{
    let mut i: usize = 0;
    assert(targets@.skip(0) =~= targets@);
    while i < targets.len()
        invariant
            i <= targets@.len(),
            spec_target_source_range(targets@, target_id@) == spec_target_source_range(
                targets@.skip(i as int),
                target_id@,
            ),
        decreases targets@.len() - i,
    {
        assert(targets@.skip(i as int).drop_first() =~= targets@.skip(i + 1));
        if targets[i].id == *target_id {
            return targets[i].source_range;
        }
        i = i + 1;
    }
    None
}

/// The tree `t` linked to a dependency target.
pub open spec fn tree_with_target(
    t: AstTree,
    target_id: Seq<char>,
    role: Seq<char>,
    range: Option<PassDebugSourceRange>,
) -> AstTree {
    AstTree { target_id: Some(target_id), role: Some(role), source_range: range, ..t }
}

pub(crate) fn node_with_target(
    n: PassDebugAstNode,
    target_id: String,
    role: String,
    range: Option<PassDebugSourceRange>,
    Ghost(t): Ghost<AstTree>,
) -> (r: PassDebugAstNode)
    requires
        ast_node_is(n, t),
    ensures
        ast_node_is(r, tree_with_target(t, target_id@, role@, range)),
{
    let r = n.with_target_range(target_id, role, range);
    assert(r.children == n.children);
    r
}

// ---------------------------------------------------------------------------
// Functions
// ---------------------------------------------------------------------------

pub open spec fn spec_name_or(name: Option<String>, anonymous: Seq<char>) -> Seq<char> {
    match name {
        Some(n) => n@,
        None => anonymous,
    }
}

pub fn name_or(name: &Option<String>, anonymous: &str) -> (r: String)
    ensures
        r@ == spec_name_or(*name, anonymous@),
{
    match name {
        Some(n) => n.clone(),
        None => owned(anonymous),
    }
}

pub open spec fn spec_index_label(i: nat) -> Seq<char> {
    "["@ + spec_decimal(i) + "]"@
}

pub fn index_label(i: usize) -> (r: String)
    ensures
        r@ == spec_index_label(i as nat),
{
    let d = decimal(i);
    concat3("[", d.as_str(), "]")
}

/// `[i] <name>`: an arena item's label.
pub open spec fn spec_item_label(i: nat, name: Option<String>, anonymous: Seq<char>) -> Seq<char> {
    spec_index_label(i) + " "@ + spec_name_or(name, anonymous)
}

pub fn item_label(i: usize, name: &Option<String>, anonymous: &str) -> (r: String)
    ensures
        r@ == spec_item_label(i as nat, *name, anonymous@),
{
    let mut r = index_label(i);
    r.append(" ");
    let n = name_or(name, anonymous);
    r.append(n.as_str());
    r
}

/// `<title> (<n>)`: a group's label.
pub open spec fn spec_count_label(title: Seq<char>, n: nat) -> Seq<char> {
    title + " ("@ + spec_decimal(n) + ")"@
}

pub fn count_label(title: &str, n: usize) -> (r: String)
    ensures
        r@ == spec_count_label(title@, n as nat),
{
    let d = decimal(n);
    let mut r = concat(title, " (");
    r.append(d.as_str());
    r.append(")");
    r
}

/// A leaf labelled `prefix` followed by `text`.
pub fn text_leaf(prefix: &str, text: &str) -> (r: PassDebugAstNode)
    ensures
        ast_node_is(r, tree_leaf(prefix@ + text@)),
{
    ast_leaf(concat(prefix, text))
}

pub open spec fn spec_type_leaf(ty: usize) -> AstTree {
    tree_leaf("type: "@ + spec_index_label(ty as nat))
}

pub fn type_leaf(ty: usize) -> (r: PassDebugAstNode)
    ensures
        ast_node_is(r, spec_type_leaf(ty)),
{
    let l = index_label(ty);
    text_leaf("type: ", l.as_str())
}

/// The debug rendering of an optional handle: `Some([h])` or `None`.
pub open spec fn spec_optional_handle(h: Option<usize>) -> Seq<char> {
    match h {
        Some(x) => "Some("@ + spec_index_label(x as nat) + ")"@,
        None => "None"@,
    }
}

pub fn optional_handle(h: Option<usize>) -> (r: String)
    ensures
        r@ == spec_optional_handle(h),
{
    match h {
        Some(x) => {
            let l = index_label(x);
            concat3("Some(", l.as_str(), ")")
        },
        None => owned("None"),
    }
}

/// `<scope>::arg::<i>`, `<scope>::local::<h>`, `<scope>::expr::<h>`.
pub open spec fn spec_scoped_id(scope: Seq<char>, kind: Seq<char>, i: nat) -> Seq<char> {
    scope + "::"@ + kind + "::"@ + spec_decimal(i)
}

pub fn scoped_id(scope: &str, kind: &str, i: usize) -> (r: String)
    ensures
        r@ == spec_scoped_id(scope@, kind@, i as nat),
{
    let d = decimal(i);
    let mut r = concat3(scope, "::", kind);
    r.append("::");
    r.append(d.as_str());
    r
}

pub open spec fn spec_argument_tree(
    scope: Seq<char>,
    i: nat,
    arg: IrArgument,
    targets: Seq<PassDebugDependencyTarget>,
) -> AstTree {
    let id = spec_scoped_id(scope, "arg"@, i);
    tree_with_target(
        tree_branch(
            spec_decimal(i) + ": "@ + spec_name_or(arg.name, "<anonymous argument>"@),
            seq![spec_type_leaf(arg.ty), tree_leaf("binding: "@ + arg.binding@)],
        ),
        id,
        "argument"@,
        spec_target_source_range(targets, id),
    )
}

pub open spec fn spec_local_tree(
    scope: Seq<char>,
    h: nat,
    local: IrLocal,
    targets: Seq<PassDebugDependencyTarget>,
) -> AstTree {
    let id = spec_scoped_id(scope, "local"@, h);
    tree_with_target(
        tree_branch(
            spec_item_label(h, local.name, "<anonymous local>"@),
            seq![spec_type_leaf(local.ty), tree_leaf("init: "@ + spec_optional_handle(local.init))],
        ),
        id,
        "local"@,
        spec_target_source_range(targets, id),
    )
}

/// `h` is the handle of a named expression.
pub open spec fn is_named(named: Seq<IrNamedExpression>, h: nat) -> bool {
    exists|j: int| 0 <= j < named.len() && named[j].handle == h
}

/// An expression at the top of an expression group; named expressions of a
/// function are linked to their `let` target.
pub open spec fn spec_group_expr_tree(
    exprs: Seq<IrExpression>,
    h: nat,
    b: Seq<u8>,
    scope: Option<Seq<char>>,
    named: Seq<IrNamedExpression>,
    targets: Seq<PassDebugDependencyTarget>,
) -> AstTree {
    let t = spec_expr_tree(exprs, h, 0, b);
    match scope {
        Some(sc) => if is_named(named, h) {
            let id = spec_scoped_id(sc, "expr"@, h);
            let range = match spec_target_source_range(targets, id) {
                Some(r) => Some(r),
                None => t.source_range,
            };
            tree_with_target(t, id, "let"@, range)
        } else {
            t
        },
        None => t,
    }
}

pub open spec fn spec_expressions_group(
    label: Seq<char>,
    exprs: Seq<IrExpression>,
    b: Seq<u8>,
    scope: Option<Seq<char>>,
    named: Seq<IrNamedExpression>,
    targets: Seq<PassDebugDependencyTarget>,
) -> AstTree {
    tree_branch(
        spec_count_label(label, exprs.len()),
        Seq::new(exprs.len(), |h: int| spec_group_expr_tree(exprs, h as nat, b, scope, named, targets)),
    )
}

/// The expressions of a function, or the module's global expressions.
pub open spec fn function_ok(f: IrFunction) -> bool {
    &&& exprs_ok(f.expressions@)
    &&& block_ok(f.body@, f.expressions@.len(), f.body@.len() as int)
}

pub open spec fn spec_result_trees(result: Option<IrResult>) -> Seq<AstTree> {
    match result {
        Some(r) => seq![spec_type_leaf(r.ty), tree_leaf("binding: "@ + r.binding@)],
        None => seq![tree_leaf("none"@)],
    }
}

pub open spec fn spec_function_children(
    scope: Seq<char>,
    f: IrFunction,
    b: Seq<u8>,
    targets: Seq<PassDebugDependencyTarget>,
) -> Seq<AstTree> {
    seq![
        tree_branch(
            spec_count_label("Arguments"@, f.arguments@.len()),
            Seq::new(f.arguments@.len(), |i: int| spec_argument_tree(scope, i as nat, f.arguments@[i], targets)),
        ),
        tree_branch(
            "Result"@,
            spec_result_trees(f.result),
        ),
        tree_branch(
            spec_count_label("Local Variables"@, f.locals@.len()),
            Seq::new(f.locals@.len(), |h: int| spec_local_tree(scope, h as nat, f.locals@[h], targets)),
        ),
        spec_expressions_group("Expressions"@, f.expressions@, b, Some(scope), f.named_expressions@, targets),
        tree_branch("Body"@, spec_block_trees(f.expressions@, f.body@, 0, b)),
    ]
}

pub fn contains_named(named: &Vec<IrNamedExpression>, h: usize) -> (r: bool)
    ensures
        r == is_named(named@, h as nat),
{
    let mut j: usize = 0;
    while j < named.len()
        invariant
            j <= named@.len(),
            forall|k: int| 0 <= k < j ==> named@[k].handle != h,
        decreases named@.len() - j,
    {
        if named[j].handle == h {
            return true;
        }
        j = j + 1;
    }
    false
}

pub fn expressions_group_node_inner(
    label: &str,
    exprs: &Vec<IrExpression>,
    source: &str,
    scope: Option<&str>,
    named: &Vec<IrNamedExpression>,
    targets: &Vec<PassDebugDependencyTarget>,
) -> (r: PassDebugAstNode)
    requires
        exprs_ok(exprs@),
    ensures
        ast_node_is(
            r,
            spec_expressions_group(
                label@,
                exprs@,
                source.spec_bytes(),
                match scope {
                    Some(s) => Some(s@),
                    None => None,
                },
                named@,
                targets@,
            ),
        ),
{
    let ghost b = source.spec_bytes();
    let ghost sc = match scope {
        Some(s) => Some(s@),
        None => None,
    };
    let ghost ts = Seq::new(exprs@.len(), |h: int| spec_group_expr_tree(exprs@, h as nat, b, sc, named@, targets@));
    let mut v: Vec<PassDebugAstNode> = Vec::new();
    let mut h: usize = 0;
    while h < exprs.len()
        invariant
            exprs_ok(exprs@),
            h <= exprs@.len(),
            b == source.spec_bytes(),
            sc == (match scope {
                Some(s) => Some(s@),
                None => None::<Seq<char>>,
            }),
            ts == Seq::new(exprs@.len(), |h: int| spec_group_expr_tree(exprs@, h as nat, b, sc, named@, targets@)),
            v@.len() == h,
            forall|j: int| 0 <= j < h ==> #[trigger] ast_node_is(v@[j], ts[j]),
        decreases exprs@.len() - h,
    {
        let node = expression_node(exprs, h, source, 0);
        let ghost t = spec_expr_tree(exprs@, h as nat, 0, b);
        let node = match scope {
            Some(s) => {
                if contains_named(named, h) {
                    let id = scoped_id(s, "expr", h);
                    let range = match target_source_range(targets, &id) {
                        Some(r) => Some(r),
                        None => node.source_range,
                    };
                    node_with_target(node, id, owned("let"), range, Ghost(t))
                } else {
                    node
                }
            },
            None => node,
        };
        assert(ast_node_is(node, ts[h as int]));
        v.push(node);
        assert forall|j: int| 0 <= j < h + 1 implies #[trigger] ast_node_is(v@[j], ts[j]) by {
            if j < h {
                assert(ast_node_is(v@[j], ts[j]));
            }
        }
        h = h + 1;
    }
    let label_text = count_label(label, exprs.len());
    ast_branch(label_text, v, Ghost(ts))
}

pub fn function_children(
    scope: &str,
    f: &IrFunction,
    source: &str,
    targets: &Vec<PassDebugDependencyTarget>,
) -> (r: Vec<PassDebugAstNode>)
    requires
        function_ok(*f),
    ensures
        ast_nodes_are(r@, spec_function_children(scope@, *f, source.spec_bytes(), targets@)),
{
    let ghost b = source.spec_bytes();
    let ghost want = spec_function_children(scope@, *f, b, targets@);
    // Arguments
    let ghost ats = Seq::new(f.arguments@.len(), |i: int| spec_argument_tree(scope@, i as nat, f.arguments@[i], targets@));
    let mut args: Vec<PassDebugAstNode> = Vec::new();
    let mut i: usize = 0;
    while i < f.arguments.len()
        invariant
            i <= f.arguments@.len(),
            ats == Seq::new(f.arguments@.len(), |i: int| spec_argument_tree(scope@, i as nat, f.arguments@[i], targets@)),
            args@.len() == i,
            forall|j: int| 0 <= j < i ==> #[trigger] ast_node_is(args@[j], ats[j]),
        decreases f.arguments@.len() - i,
    {
        let arg = &f.arguments[i];
        let d = decimal(i);
        let mut label = concat(d.as_str(), ": ");
        let n = name_or(&arg.name, "<anonymous argument>");
        label.append(n.as_str());
        let ghost kts = seq![spec_type_leaf(arg.ty), tree_leaf("binding: "@ + arg.binding@)];
        let mut kids = Vec::new();
        kids.push(type_leaf(arg.ty));
        kids.push(text_leaf("binding: ", arg.binding.as_str()));
        assert(ast_node_is(kids@[0], kts[0]));
        assert(ast_node_is(kids@[1], kts[1]));
        let node = ast_branch(label, kids, Ghost(kts));
        let id = scoped_id(scope, "arg", i);
        let range = target_source_range(targets, &id);
        let ghost t = tree_branch(
            spec_decimal(i as nat) + ": "@ + spec_name_or(arg.name, "<anonymous argument>"@),
            kts,
        );
        let node = node_with_target(node, id, owned("argument"), range, Ghost(t));
        assert(ast_node_is(node, ats[i as int]));
        args.push(node);
        assert forall|j: int| 0 <= j < i + 1 implies #[trigger] ast_node_is(args@[j], ats[j]) by {
            if j < i {
                assert(ast_node_is(args@[j], ats[j]));
            }
        }
        i = i + 1;
    }
    let args_label = count_label("Arguments", f.arguments.len());
    let args_node = ast_branch(args_label, args, Ghost(ats));
    // Result
    let ghost rts = spec_result_trees(f.result);
    let mut rkids = Vec::new();
    match &f.result {
        Some(r) => {
            rkids.push(type_leaf(r.ty));
            rkids.push(text_leaf("binding: ", r.binding.as_str()));
            assert(ast_node_is(rkids@[0], rts[0]));
            assert(ast_node_is(rkids@[1], rts[1]));
        },
        None => {
            rkids.push(ast_leaf(owned("none")));
            assert(ast_node_is(rkids@[0], rts[0]));
        },
    }
    let result_node = ast_branch(owned("Result"), rkids, Ghost(rts));
    // Local variables
    let ghost lts = Seq::new(f.locals@.len(), |h: int| spec_local_tree(scope@, h as nat, f.locals@[h], targets@));
    let mut locals: Vec<PassDebugAstNode> = Vec::new();
    let mut h: usize = 0;
    while h < f.locals.len()
        invariant
            h <= f.locals@.len(),
            lts == Seq::new(f.locals@.len(), |h: int| spec_local_tree(scope@, h as nat, f.locals@[h], targets@)),
            locals@.len() == h,
            forall|j: int| 0 <= j < h ==> #[trigger] ast_node_is(locals@[j], lts[j]),
        decreases f.locals@.len() - h,
    {
        let local = &f.locals[h];
        let label = item_label(h, &local.name, "<anonymous local>");
        let ghost kts = seq![spec_type_leaf(local.ty), tree_leaf("init: "@ + spec_optional_handle(local.init))];
        let mut kids = Vec::new();
        kids.push(type_leaf(local.ty));
        let init = optional_handle(local.init);
        kids.push(text_leaf("init: ", init.as_str()));
        assert(ast_node_is(kids@[0], kts[0]));
        assert(ast_node_is(kids@[1], kts[1]));
        let node = ast_branch(label, kids, Ghost(kts));
        let id = scoped_id(scope, "local", h);
        let range = target_source_range(targets, &id);
        let ghost t = tree_branch(spec_item_label(h as nat, local.name, "<anonymous local>"@), kts);
        let node = node_with_target(node, id, owned("local"), range, Ghost(t));
        assert(ast_node_is(node, lts[h as int]));
        locals.push(node);
        assert forall|j: int| 0 <= j < h + 1 implies #[trigger] ast_node_is(locals@[j], lts[j]) by {
            if j < h {
                assert(ast_node_is(locals@[j], lts[j]));
            }
        }
        h = h + 1;
    }
    let locals_label = count_label("Local Variables", f.locals.len());
    let locals_node = ast_branch(locals_label, locals, Ghost(lts));
    // Expressions and body
    let exprs_node = expressions_group_node_inner(
        "Expressions",
        &f.expressions,
        source,
        Some(scope),
        &f.named_expressions,
        targets,
    );
    let body = block_to_nodes(&f.expressions, &f.body, 0, source);
    let ghost bts = spec_block_trees(f.expressions@, f.body@, 0, b);
    let body_node = ast_branch(owned("Body"), body, Ghost(bts));
    let mut v = Vec::new();
    v.push(args_node);
    v.push(result_node);
    v.push(locals_node);
    v.push(exprs_node);
    v.push(body_node);
    assert(ast_node_is(v@[0], want[0]));
    assert(ast_node_is(v@[1], want[1]));
    assert(ast_node_is(v@[2], want[2]));
    assert(ast_node_is(v@[3], want[3]));
    assert(ast_node_is(v@[4], want[4]));
    v
}


// ---------------------------------------------------------------------------
// The module outline
// ---------------------------------------------------------------------------

/// What the outline reads of a module is in range: every handle of every
/// expression arena and body points into its arena.
pub open spec fn module_ok(m: ShaderModule) -> bool {
    &&& forall|i: int| 0 <= i < m.entry_points@.len() ==> #[trigger] function_ok(m.entry_points@[i].function)
    &&& forall|i: int| 0 <= i < m.functions@.len() ==> #[trigger] function_ok(m.functions@[i])
    &&& exprs_ok(m.global_expressions@)
}

pub open spec fn spec_stage_label(s: IrStage) -> Seq<char> {
    match s {
        IrStage::Vertex => "Vertex"@,
        IrStage::Fragment => "Fragment"@,
        IrStage::Compute => "Compute"@,
    }
}

pub fn stage_label(s: IrStage) -> (r: &'static str)
    ensures
        r@ == spec_stage_label(s),
{
    match s {
        IrStage::Vertex => "Vertex",
        IrStage::Fragment => "Fragment",
        IrStage::Compute => "Compute",
    }
}

/// `[x, y, z]`.
pub open spec fn spec_workgroup_label(w: [u32; 3]) -> Seq<char> {
    "["@ + spec_decimal(w[0] as nat) + ", "@ + spec_decimal(w[1] as nat) + ", "@ + spec_decimal(
        w[2] as nat,
    ) + "]"@
}

pub fn workgroup_label(w: [u32; 3]) -> (r: String)
    ensures
        r@ == spec_workgroup_label(w),
{
    let a = decimal(w[0] as usize);
    let b = decimal(w[1] as usize);
    let c = decimal(w[2] as usize);
    let mut r = concat3("[", a.as_str(), ", ");
    r.append(b.as_str());
    r.append(", ");
    r.append(c.as_str());
    r.append("]");
    r
}

pub open spec fn spec_entry_tree(
    e: IrEntryPoint,
    b: Seq<u8>,
    targets: Seq<PassDebugDependencyTarget>,
) -> AstTree {
    tree_branch(
        spec_stage_label(e.stage) + " "@ + e.name@,
        seq![
            tree_leaf("early_depth_test: "@ + e.early_depth_test@),
            tree_leaf("workgroup_size: "@ + spec_workgroup_label(e.workgroup_size)),
        ] + spec_function_children(e.name@, e.function, b, targets),
    )
}

pub open spec fn spec_entry_points_tree(
    m: ShaderModule,
    b: Seq<u8>,
    targets: Seq<PassDebugDependencyTarget>,
) -> AstTree {
    tree_branch(
        spec_count_label("Entry Points"@, m.entry_points@.len()),
        Seq::new(m.entry_points@.len(), |i: int| spec_entry_tree(m.entry_points@[i], b, targets)),
    )
}

/// The scope of the `i`-th function: its name, or `function_<i>`.
pub open spec fn spec_function_scope(i: nat, name: Option<String>) -> Seq<char> {
    match name {
        Some(n) => n@,
        None => "function_"@ + spec_decimal(i),
    }
}

pub fn function_scope(i: usize, name: &Option<String>) -> (r: String)
    ensures
        r@ == spec_function_scope(i as nat, *name),
{
    match name {
        Some(n) => n.clone(),
        None => {
            let d = decimal(i);
            concat("function_", d.as_str())
        },
    }
}

pub open spec fn spec_function_tree(
    i: nat,
    f: IrFunction,
    b: Seq<u8>,
    targets: Seq<PassDebugDependencyTarget>,
) -> AstTree {
    tree_branch(
        spec_item_label(i, f.name, "<anonymous function>"@),
        spec_function_children(spec_function_scope(i, f.name), f, b, targets),
    )
}

pub open spec fn spec_functions_tree(
    m: ShaderModule,
    b: Seq<u8>,
    targets: Seq<PassDebugDependencyTarget>,
) -> AstTree {
    tree_branch(
        spec_count_label("Functions"@, m.functions@.len()),
        Seq::new(m.functions@.len(), |i: int| spec_function_tree(i as nat, m.functions@[i], b, targets)),
    )
}

/// `global::<i>`.
pub open spec fn spec_global_id(i: nat) -> Seq<char> {
    "global::"@ + spec_decimal(i)
}

pub fn global_id(i: usize) -> (r: String)
    ensures
        r@ == spec_global_id(i as nat),
{
    let d = decimal(i);
    concat("global::", d.as_str())
}

pub open spec fn spec_global_tree(i: nat, g: IrGlobal, targets: Seq<PassDebugDependencyTarget>) -> AstTree {
    let id = spec_global_id(i);
    tree_with_target(
        tree_branch(
            spec_item_label(i, g.name, "<anonymous global>"@),
            seq![
                tree_leaf("space: "@ + g.space@),
                tree_leaf("binding: "@ + g.binding@),
                spec_type_leaf(g.ty),
                tree_leaf("init: "@ + spec_optional_handle(g.init)),
            ],
        ),
        id,
        "global"@,
        spec_target_source_range(targets, id),
    )
}

pub open spec fn spec_globals_tree(m: ShaderModule, targets: Seq<PassDebugDependencyTarget>) -> AstTree {
    tree_branch(
        spec_count_label("Globals"@, m.globals@.len()),
        Seq::new(m.globals@.len(), |i: int| spec_global_tree(i as nat, m.globals@[i], targets)),
    )
}

pub open spec fn spec_type_tree(i: nat, t: IrType) -> AstTree {
    tree_branch(spec_item_label(i, t.name, "<anonymous type>"@), seq![tree_leaf(t.inner@)])
}

pub open spec fn spec_constant_tree(i: nat, c: IrConstant) -> AstTree {
    tree_branch(
        spec_item_label(i, c.name, "<anonymous constant>"@),
        seq![spec_type_leaf(c.ty), tree_leaf("init: "@ + spec_index_label(c.init as nat))],
    )
}

/// The debug rendering of an optional override id: `Some(<id>)` or `None`.
pub open spec fn spec_override_id_label(id: Option<u16>) -> Seq<char> {
    match id {
        Some(x) => "Some("@ + spec_decimal(x as nat) + ")"@,
        None => "None"@,
    }
}

pub fn override_id_label(id: Option<u16>) -> (r: String)
    ensures
        r@ == spec_override_id_label(id),
{
    match id {
        Some(x) => {
            let d = decimal(x as usize);
            concat3("Some(", d.as_str(), ")")
        },
        None => owned("None"),
    }
}

pub open spec fn spec_override_tree(i: nat, o: IrOverride) -> AstTree {
    tree_branch(
        spec_item_label(i, o.name, "<anonymous override>"@),
        seq![
            spec_type_leaf(o.ty),
            tree_leaf("init: "@ + spec_optional_handle(o.init)),
            tree_leaf("id: "@ + spec_override_id_label(o.id)),
        ],
    )
}

pub open spec fn spec_types_and_constants_tree(m: ShaderModule, b: Seq<u8>) -> AstTree {
    tree_branch(
        "Types / Constants"@,
        seq![
            tree_branch(
                spec_count_label("Types"@, m.types@.len()),
                Seq::new(m.types@.len(), |i: int| spec_type_tree(i as nat, m.types@[i])),
            ),
            tree_branch(
                spec_count_label("Constants"@, m.constants@.len()),
                Seq::new(m.constants@.len(), |i: int| spec_constant_tree(i as nat, m.constants@[i])),
            ),
            tree_branch(
                spec_count_label("Overrides"@, m.overrides@.len()),
                Seq::new(m.overrides@.len(), |i: int| spec_override_tree(i as nat, m.overrides@[i])),
            ),
            spec_expressions_group("Global Expressions"@, m.global_expressions@, b, None, seq![], seq![]),
        ],
    )
}

/// The whole outline: entry points, functions, globals, and types with
/// constants.
pub open spec fn spec_module_tree(
    m: ShaderModule,
    b: Seq<u8>,
    targets: Seq<PassDebugDependencyTarget>,
) -> Seq<AstTree> {
    seq![
        spec_entry_points_tree(m, b, targets),
        spec_functions_tree(m, b, targets),
        spec_globals_tree(m, targets),
        spec_types_and_constants_tree(m, b),
    ]
}


pub fn entry_points_node(
    m: &ShaderModule,
    source: &str,
    targets: &Vec<PassDebugDependencyTarget>,
) -> (r: PassDebugAstNode)
    requires
        module_ok(*m),
    ensures
        ast_node_is(r, spec_entry_points_tree(*m, source.spec_bytes(), targets@)),
{
    let ghost b = source.spec_bytes();
    let ghost ts = Seq::new(m.entry_points@.len(), |i: int| spec_entry_tree(m.entry_points@[i], b, targets@));
    let mut v: Vec<PassDebugAstNode> = Vec::new();
    let mut i: usize = 0;
    while i < m.entry_points.len()
        invariant
            module_ok(*m),
            i <= m.entry_points@.len(),
            b == source.spec_bytes(),
            ts == Seq::new(m.entry_points@.len(), |i: int| spec_entry_tree(m.entry_points@[i], b, targets@)),
            ast_nodes_are(v@, ts.take(i as int)),
        decreases m.entry_points@.len() - i,
    {
        let e = &m.entry_points[i];
        assert(function_ok(m.entry_points@[i as int].function));
        let mut kids: Vec<PassDebugAstNode> = Vec::new();
        kids.push(text_leaf("early_depth_test: ", e.early_depth_test.as_str()));
        let w = workgroup_label(e.workgroup_size);
        kids.push(text_leaf("workgroup_size: ", w.as_str()));
        let ghost head = seq![
            tree_leaf("early_depth_test: "@ + e.early_depth_test@),
            tree_leaf("workgroup_size: "@ + spec_workgroup_label(e.workgroup_size)),
        ];
        assert(ast_nodes_are(kids@, head)) by {
            assert(ast_node_is(kids@[0], head[0]));
            assert(ast_node_is(kids@[1], head[1]));
        }
        let mut rest = function_children(e.name.as_str(), &e.function, source, targets);
        let ghost rest_ts = spec_function_children(e.name@, e.function, b, targets@);
        proof {
            lemma_nodes_append(kids@, head, rest@, rest_ts);
        }
        kids.append(&mut rest);
        let mut label = owned(stage_label(e.stage));
        label.append(" ");
        label.append(e.name.as_str());
        let node = ast_branch(label, kids, Ghost(head + rest_ts));
        proof {
            lemma_nodes_push(v@, ts.take(i as int), node, ts[i as int]);
            assert(ts.take(i as int).push(ts[i as int]) =~= ts.take(i + 1));
        }
        v.push(node);
        i = i + 1;
    }
    assert(ts.take(i as int) =~= ts);
    let label = count_label("Entry Points", m.entry_points.len());
    ast_branch(label, v, Ghost(ts))
}

pub fn functions_node(
    m: &ShaderModule,
    source: &str,
    targets: &Vec<PassDebugDependencyTarget>,
) -> (r: PassDebugAstNode)
    requires
        module_ok(*m),
    ensures
        ast_node_is(r, spec_functions_tree(*m, source.spec_bytes(), targets@)),
{
    let ghost b = source.spec_bytes();
    let ghost ts = Seq::new(m.functions@.len(), |i: int| spec_function_tree(i as nat, m.functions@[i], b, targets@));
    let mut v: Vec<PassDebugAstNode> = Vec::new();
    let mut i: usize = 0;
    while i < m.functions.len()
        invariant
            module_ok(*m),
            i <= m.functions@.len(),
            b == source.spec_bytes(),
            ts == Seq::new(m.functions@.len(), |i: int| spec_function_tree(i as nat, m.functions@[i], b, targets@)),
            ast_nodes_are(v@, ts.take(i as int)),
        decreases m.functions@.len() - i,
    {
        let f = &m.functions[i];
        assert(function_ok(m.functions@[i as int]));
        let scope = function_scope(i, &f.name);
        let kids = function_children(scope.as_str(), f, source, targets);
        let label = item_label(i, &f.name, "<anonymous function>");
        let node = ast_branch(label, kids, Ghost(spec_function_children(scope@, *f, b, targets@)));
        proof {
            lemma_nodes_push(v@, ts.take(i as int), node, ts[i as int]);
            assert(ts.take(i as int).push(ts[i as int]) =~= ts.take(i + 1));
        }
        v.push(node);
        i = i + 1;
    }
    assert(ts.take(i as int) =~= ts);
    let label = count_label("Functions", m.functions.len());
    ast_branch(label, v, Ghost(ts))
}

pub fn globals_node(m: &ShaderModule, targets: &Vec<PassDebugDependencyTarget>) -> (r: PassDebugAstNode)
    ensures
        ast_node_is(r, spec_globals_tree(*m, targets@)),
{
    let ghost ts = Seq::new(m.globals@.len(), |i: int| spec_global_tree(i as nat, m.globals@[i], targets@));
    let mut v: Vec<PassDebugAstNode> = Vec::new();
    let mut i: usize = 0;
    while i < m.globals.len()
        invariant
            i <= m.globals@.len(),
            ts == Seq::new(m.globals@.len(), |i: int| spec_global_tree(i as nat, m.globals@[i], targets@)),
            ast_nodes_are(v@, ts.take(i as int)),
        decreases m.globals@.len() - i,
    {
        let g = &m.globals[i];
        let ghost kts = seq![
            tree_leaf("space: "@ + g.space@),
            tree_leaf("binding: "@ + g.binding@),
            spec_type_leaf(g.ty),
            tree_leaf("init: "@ + spec_optional_handle(g.init)),
        ];
        let mut kids: Vec<PassDebugAstNode> = Vec::new();
        kids.push(text_leaf("space: ", g.space.as_str()));
        kids.push(text_leaf("binding: ", g.binding.as_str()));
        kids.push(type_leaf(g.ty));
        let init = optional_handle(g.init);
        kids.push(text_leaf("init: ", init.as_str()));
        assert(ast_nodes_are(kids@, kts)) by {
            assert(ast_node_is(kids@[0], kts[0]));
            assert(ast_node_is(kids@[1], kts[1]));
            assert(ast_node_is(kids@[2], kts[2]));
            assert(ast_node_is(kids@[3], kts[3]));
        }
        let label = item_label(i, &g.name, "<anonymous global>");
        let ghost t = tree_branch(spec_item_label(i as nat, g.name, "<anonymous global>"@), kts);
        let node = ast_branch(label, kids, Ghost(kts));
        let id = global_id(i);
        let range = target_source_range(targets, &id);
        let node = node_with_target(node, id, owned("global"), range, Ghost(t));
        proof {
            lemma_nodes_push(v@, ts.take(i as int), node, ts[i as int]);
            assert(ts.take(i as int).push(ts[i as int]) =~= ts.take(i + 1));
        }
        v.push(node);
        i = i + 1;
    }
    assert(ts.take(i as int) =~= ts);
    let label = count_label("Globals", m.globals.len());
    ast_branch(label, v, Ghost(ts))
}

fn types_node(m: &ShaderModule) -> (r: PassDebugAstNode)
    ensures
        ast_node_is(r, spec_types_and_constants_tree(*m, seq![]).children[0]),
{
    let ghost ts = Seq::new(m.types@.len(), |i: int| spec_type_tree(i as nat, m.types@[i]));
    let mut v: Vec<PassDebugAstNode> = Vec::new();
    let mut i: usize = 0;
    while i < m.types.len()
        invariant
            i <= m.types@.len(),
            ts == Seq::new(m.types@.len(), |i: int| spec_type_tree(i as nat, m.types@[i])),
            ast_nodes_are(v@, ts.take(i as int)),
        decreases m.types@.len() - i,
    {
        let t = &m.types[i];
        let label = item_label(i, &t.name, "<anonymous type>");
        let inner = ast_leaf(t.inner.clone());
        let ghost kts = seq![tree_leaf(t.inner@)];
        let kids = one_node(inner, Ghost(tree_leaf(t.inner@)));
        let node = ast_branch(label, kids, Ghost(kts));
        proof {
            lemma_nodes_push(v@, ts.take(i as int), node, ts[i as int]);
            assert(ts.take(i as int).push(ts[i as int]) =~= ts.take(i + 1));
        }
        v.push(node);
        i = i + 1;
    }
    assert(ts.take(i as int) =~= ts);
    let label = count_label("Types", m.types.len());
    ast_branch(label, v, Ghost(ts))
}

fn constants_node(m: &ShaderModule) -> (r: PassDebugAstNode)
    ensures
        ast_node_is(r, spec_types_and_constants_tree(*m, seq![]).children[1]),
{
    let ghost ts = Seq::new(m.constants@.len(), |i: int| spec_constant_tree(i as nat, m.constants@[i]));
    let mut v: Vec<PassDebugAstNode> = Vec::new();
    let mut i: usize = 0;
    while i < m.constants.len()
        invariant
            i <= m.constants@.len(),
            ts == Seq::new(m.constants@.len(), |i: int| spec_constant_tree(i as nat, m.constants@[i])),
            ast_nodes_are(v@, ts.take(i as int)),
        decreases m.constants@.len() - i,
    {
        let c = &m.constants[i];
        let ghost kts = seq![spec_type_leaf(c.ty), tree_leaf("init: "@ + spec_index_label(c.init as nat))];
        let mut kids: Vec<PassDebugAstNode> = Vec::new();
        kids.push(type_leaf(c.ty));
        let init = index_label(c.init);
        kids.push(text_leaf("init: ", init.as_str()));
        assert(ast_nodes_are(kids@, kts)) by {
            assert(ast_node_is(kids@[0], kts[0]));
            assert(ast_node_is(kids@[1], kts[1]));
        }
        let label = item_label(i, &c.name, "<anonymous constant>");
        let node = ast_branch(label, kids, Ghost(kts));
        proof {
            lemma_nodes_push(v@, ts.take(i as int), node, ts[i as int]);
            assert(ts.take(i as int).push(ts[i as int]) =~= ts.take(i + 1));
        }
        v.push(node);
        i = i + 1;
    }
    assert(ts.take(i as int) =~= ts);
    let label = count_label("Constants", m.constants.len());
    ast_branch(label, v, Ghost(ts))
}

fn overrides_node(m: &ShaderModule) -> (r: PassDebugAstNode)
    ensures
        ast_node_is(r, spec_types_and_constants_tree(*m, seq![]).children[2]),
{
    let ghost ts = Seq::new(m.overrides@.len(), |i: int| spec_override_tree(i as nat, m.overrides@[i]));
    let mut v: Vec<PassDebugAstNode> = Vec::new();
    let mut i: usize = 0;
    while i < m.overrides.len()
        invariant
            i <= m.overrides@.len(),
            ts == Seq::new(m.overrides@.len(), |i: int| spec_override_tree(i as nat, m.overrides@[i])),
            ast_nodes_are(v@, ts.take(i as int)),
        decreases m.overrides@.len() - i,
    {
        let o = &m.overrides[i];
        let ghost kts = seq![
            spec_type_leaf(o.ty),
            tree_leaf("init: "@ + spec_optional_handle(o.init)),
            tree_leaf("id: "@ + spec_override_id_label(o.id)),
        ];
        let mut kids: Vec<PassDebugAstNode> = Vec::new();
        kids.push(type_leaf(o.ty));
        let init = optional_handle(o.init);
        kids.push(text_leaf("init: ", init.as_str()));
        let id = override_id_label(o.id);
        kids.push(text_leaf("id: ", id.as_str()));
        assert(ast_nodes_are(kids@, kts)) by {
            assert(ast_node_is(kids@[0], kts[0]));
            assert(ast_node_is(kids@[1], kts[1]));
            assert(ast_node_is(kids@[2], kts[2]));
        }
        let label = item_label(i, &o.name, "<anonymous override>");
        let node = ast_branch(label, kids, Ghost(kts));
        proof {
            lemma_nodes_push(v@, ts.take(i as int), node, ts[i as int]);
            assert(ts.take(i as int).push(ts[i as int]) =~= ts.take(i + 1));
        }
        v.push(node);
        i = i + 1;
    }
    assert(ts.take(i as int) =~= ts);
    let label = count_label("Overrides", m.overrides.len());
    ast_branch(label, v, Ghost(ts))
}

pub fn types_and_constants_node(m: &ShaderModule, source: &str) -> (r: PassDebugAstNode)
    requires
        module_ok(*m),
    ensures
        ast_node_is(r, spec_types_and_constants_tree(*m, source.spec_bytes())),
{
    let ghost want = spec_types_and_constants_tree(*m, source.spec_bytes());
    let ghost bare = spec_types_and_constants_tree(*m, seq![]);
    let no_named: Vec<IrNamedExpression> = Vec::new();
    let no_targets: Vec<PassDebugDependencyTarget> = Vec::new();
    let mut v: Vec<PassDebugAstNode> = Vec::new();
    v.push(types_node(m));
    v.push(constants_node(m));
    v.push(overrides_node(m));
    v.push(expressions_group_node_inner("Global Expressions", &m.global_expressions, source, None, &no_named, &no_targets));
    assert(no_named@ =~= seq![]);
    assert(no_targets@ =~= seq![]);
    assert(ast_nodes_are(v@, want.children)) by {
        assert(want.children[0] == bare.children[0]);
        assert(want.children[1] == bare.children[1]);
        assert(want.children[2] == bare.children[2]);
        assert(ast_node_is(v@[0], want.children[0]));
        assert(ast_node_is(v@[1], want.children[1]));
        assert(ast_node_is(v@[2], want.children[2]));
        assert(ast_node_is(v@[3], want.children[3]));
    }
    ast_branch(owned("Types / Constants"), v, Ghost(want.children))
}

/// The AST outline of a parsed module: entry points, functions, globals, and
/// types with constants, in that order. Nodes that stand for a dependency
/// target carry its id and the source range recorded for it in `targets`.
pub fn module_to_ast_tree(
    module: &ShaderModule,
    source: &str,
    targets: &Vec<PassDebugDependencyTarget>,
) -> (r: Vec<PassDebugAstNode>)
    requires
        module_ok(*module),
    ensures
        ast_nodes_are(r@, spec_module_tree(*module, source.spec_bytes(), targets@)),
{
    let ghost want = spec_module_tree(*module, source.spec_bytes(), targets@);
    let mut v: Vec<PassDebugAstNode> = Vec::new();
    v.push(entry_points_node(module, source, targets));
    v.push(functions_node(module, source, targets));
    v.push(globals_node(module, targets));
    v.push(types_and_constants_node(module, source));
    assert(ast_node_is(v@[0], want[0]));
    assert(ast_node_is(v@[1], want[1]));
    assert(ast_node_is(v@[2], want[2]));
    assert(ast_node_is(v@[3], want[3]));
    v
}


/// The outline of a module has four sections: the entry points (one branch
/// per entry point, labelled by its stage and name), the functions (one
/// branch per function), the globals (one branch per global, linked to the
/// global's dependency target `global::<i>`), and the types with constants.
pub proof fn lemma_outline_sections(m: ShaderModule, b: Seq<u8>, targets: Seq<PassDebugDependencyTarget>)
    ensures
        spec_module_tree(m, b, targets).len() == 4,
        spec_module_tree(m, b, targets)[0].label == spec_count_label("Entry Points"@, m.entry_points@.len()),
        spec_module_tree(m, b, targets)[0].children.len() == m.entry_points@.len(),
        forall|i: int|
            0 <= i < m.entry_points@.len() ==> (#[trigger] spec_module_tree(m, b, targets)[0].children[i]).label
                == spec_stage_label(m.entry_points@[i].stage) + " "@ + m.entry_points@[i].name@,
        spec_module_tree(m, b, targets)[1].label == spec_count_label("Functions"@, m.functions@.len()),
        spec_module_tree(m, b, targets)[1].children.len() == m.functions@.len(),
        spec_module_tree(m, b, targets)[2].label == spec_count_label("Globals"@, m.globals@.len()),
        spec_module_tree(m, b, targets)[2].children.len() == m.globals@.len(),
        forall|i: int|
            0 <= i < m.globals@.len() ==> {
                let g = #[trigger] spec_module_tree(m, b, targets)[2].children[i];
                &&& g.target_id == Some(spec_global_id(i as nat))
                &&& g.role == Some("global"@)
                &&& g.source_range == spec_target_source_range(targets, spec_global_id(i as nat))
            },
        spec_module_tree(m, b, targets)[3].label == "Types / Constants"@,
        spec_module_tree(m, b, targets)[3].children.len() == 4,
{
}


/// Each entry point's node in the outline lists, after its early depth test,
/// its workgroup size as `x`, `y` and `z` in that order, each in decimal.
pub proof fn lemma_entry_workgroup_size_in_order(
    m: ShaderModule,
    b: Seq<u8>,
    targets: Seq<PassDebugDependencyTarget>,
    i: int,
)
    requires
        0 <= i < m.entry_points@.len(),
    ensures
        spec_module_tree(m, b, targets)[0].children[i].children[1].label == "workgroup_size: ["@ + spec_decimal(
            m.entry_points@[i].workgroup_size[0] as nat,
        ) + ", "@ + spec_decimal(m.entry_points@[i].workgroup_size[1] as nat) + ", "@ + spec_decimal(
            m.entry_points@[i].workgroup_size[2] as nat,
        ) + "]"@,
        spec_module_tree(m, b, targets)[0].children[i].children[0].label == "early_depth_test: "@
            + m.entry_points@[i].early_depth_test@,
{
    let e = m.entry_points@[i];
    let t = spec_entry_tree(e, b, targets);
    assert(spec_module_tree(m, b, targets)[0].children[i] == t);
    assert(t.children[1] == tree_leaf("workgroup_size: "@ + spec_workgroup_label(e.workgroup_size)));
    assert(t.children[0] == tree_leaf("early_depth_test: "@ + e.early_depth_test@));
    assert("workgroup_size: "@ + spec_workgroup_label(e.workgroup_size) =~= "workgroup_size: ["@ + spec_decimal(
        e.workgroup_size[0] as nat,
    ) + ", "@ + spec_decimal(e.workgroup_size[1] as nat) + ", "@ + spec_decimal(e.workgroup_size[2] as nat) + "]"@)
        by {
        reveal_strlit("workgroup_size: ");
        reveal_strlit("[");
        reveal_strlit("workgroup_size: [");
    }
}

} // verus!
