//! What an expression reads: the types of expressions, the number of vector
//! components they carry, and access paths.
//!
//! An access path names the target (argument, global, local or named `let`)
//! at the root of a chain of loads, member and index accesses and swizzles,
//! with a display label such as `color.y` or `lights[]`, the source range
//! that shows it, and, when the chain selects vector components, their
//! indices in the target (the projection).

use vstd::prelude::*;
use vstd::string::StringSliceAdditionalSpecFns;
use vstd::utf8::encode_utf8;

use super::ast::{function_scope, global_id, scoped_id, spec_function_scope, spec_global_id, spec_scoped_id};
use super::dependency::{tview, tviews, TargetSpec};
use super::flow::{
    first_at, first_of, has_key, keys_of, known_range, known_target, opt_string, or_range, CallView,
    CallDependency, flow_calls,
};
use super::ir::{
    IrExprKind, IrExprLeaf, IrExprOp, IrExpression, IrFunction, IrSwizzleComponent, IrTypeShape, ShaderModule,
};
use super::labels::{
    dedupe_projection, lemma_dedupe_laws, spec_component_for_index, spec_component_index, spec_dedupe, spec_swizzle_pattern_label,
    swizzle_component_for_index, swizzle_component_index, swizzle_pattern_label,
};
use super::model::{PassDebugDependencyTarget, PassDebugSourceRange};
use super::source_mapping::{
    find_identifier_range, source_line_byte_range, source_range_from_byte_range, spec_line_range,
    spec_occurrence_range, spec_source_range,
};
use crate::text::{concat, decimal, owned, spec_decimal};

verus! {

// ---------------------------------------------------------------------------
// Expressions by reference
// ---------------------------------------------------------------------------

/// An expression of the function of scope `scope`, or of the module's
/// global expressions when `scope` is `None`.
pub struct ExprRef {
    pub scope: Option<String>,
    pub handle: usize,
}

pub open spec fn eview(e: ExprRef) -> (Option<Seq<char>>, usize) {
    (opt_string(e.scope), e.handle)
}

/// The scope an expression is read in; `module` for global expressions.
pub open spec fn scope_of(e: (Option<Seq<char>>, usize)) -> Seq<char> {
    match e.0 {
        Some(s) => s,
        None => "module"@,
    }
}

/// The last of the first `k` functions with scope `s`.
pub open spec fn last_function(m: ShaderModule, s: Seq<char>, k: int) -> Option<IrFunction>
    decreases k,
{
    if k <= 0 {
        None
    } else if spec_function_scope((k - 1) as nat, m.functions@[k - 1].name) == s {
        Some(m.functions@[k - 1])
    } else {
        last_function(m, s, k - 1)
    }
}

/// The function of the last of the first `k` entry points named `s`.
pub open spec fn last_entry(m: ShaderModule, s: Seq<char>, k: int) -> Option<IrFunction>
    decreases k,
{
    if k <= 0 {
        None
    } else if m.entry_points@[k - 1].name@ == s {
        Some(m.entry_points@[k - 1].function)
    } else {
        last_entry(m, s, k - 1)
    }
}

/// The function of scope `s`: functions are registered after entry points,
/// and a later registration of a scope replaces an earlier one.
pub open spec fn scope_function(m: ShaderModule, s: Seq<char>) -> Option<IrFunction> {
    match last_function(m, s, m.functions@.len() as int) {
        Some(f) => Some(f),
        None => last_entry(m, s, m.entry_points@.len() as int),
    }
}

/// The expression `e` refers to, if its arena holds it.
pub open spec fn expr_at(m: ShaderModule, e: (Option<Seq<char>>, usize)) -> Option<IrExpression> {
    match e.0 {
        None => if e.1 < m.global_expressions@.len() {
            Some(m.global_expressions@[e.1 as int])
        } else {
            None
        },
        Some(s) => match scope_function(m, s) {
            Some(f) => if e.1 < f.expressions@.len() {
                Some(f.expressions@[e.1 as int])
            } else {
                None
            },
            None => None,
        },
    }
}

/// The number of expressions in the arena of `e`.
pub open spec fn arena_len(m: ShaderModule, e: (Option<Seq<char>>, usize)) -> nat {
    match e.0 {
        None => m.global_expressions@.len(),
        Some(s) => match scope_function(m, s) {
            Some(f) => f.expressions@.len(),
            None => 0,
        },
    }
}

/// The target id of the named `let` that `e` is, if it is one.
pub open spec fn named_target(m: ShaderModule, e: (Option<Seq<char>>, usize)) -> Option<Seq<char>> {
    match e.0 {
        None => None,
        Some(s) => match scope_function(m, s) {
            Some(f) => if exists|j: int| 0 <= j < f.named_expressions@.len() && #[trigger] f.named_expressions@[j].handle == e.1 {
                Some(spec_scoped_id(s, "expr"@, e.1 as nat))
            } else {
                None
            },
            None => None,
        },
    }
}

/// The name of the first of `known` with id `id`.
pub open spec fn target_name(known: Seq<TargetSpec>, id: Seq<char>) -> Option<Seq<char>> {
    match known_target(known, id) {
        Some(t) => Some(t.name),
        None => None,
    }
}

/// The source range of `e`, when it has a span.
pub open spec fn expr_span_range(m: ShaderModule, b: Seq<u8>, e: (Option<Seq<char>>, usize)) -> Option<
    PassDebugSourceRange,
> {
    match expr_at(m, e) {
        Some(x) => match x.span {
            Some(s) => spec_source_range(b, s.start as int, s.end as int),
            None => None,
        },
        None => None,
    }
}

// ---------------------------------------------------------------------------
// Types
// ---------------------------------------------------------------------------

/// The type a pointer type points to; any other type itself.
pub open spec fn deref_ty(m: ShaderModule, t: usize) -> usize {
    if t < m.types@.len() {
        match m.types@[t as int].shape {
            IrTypeShape::Pointer { base } => base,
            _ => t,
        }
    } else {
        t
    }
}

/// The type of member or element `index` of (a pointer to) `t`.
pub open spec fn access_index_ty(m: ShaderModule, t: usize, index: u32) -> Option<usize> {
    let d = deref_ty(m, t);
    if d < m.types@.len() {
        match m.types@[d as int].shape {
            IrTypeShape::Struct { members } => if (index as int) < members@.len() {
                Some(members@[index as int].ty)
            } else {
                None
            },
            IrTypeShape::Array { base } => Some(base),
            IrTypeShape::BindingArray { base } => Some(base),
            _ => None,
        }
    } else {
        None
    }
}

/// The element type of (a pointer to) an array type `t`.
pub open spec fn indexed_ty(m: ShaderModule, t: usize) -> Option<usize> {
    let d = deref_ty(m, t);
    if d < m.types@.len() {
        match m.types@[d as int].shape {
            IrTypeShape::Array { base } => Some(base),
            IrTypeShape::BindingArray { base } => Some(base),
            _ => None,
        }
    } else {
        None
    }
}

/// The declared type of what `e` reads, through at most `fuel` loads and
/// accesses: arguments, globals and locals by their declarations, composites
/// by their type; other expressions have none.
pub open spec fn type_of_expr(m: ShaderModule, e: (Option<Seq<char>>, usize), fuel: nat) -> Option<usize>
    decreases fuel,
{
    if fuel == 0 {
        None
    } else {
        match expr_at(m, e) {
            None => None,
            Some(x) => match x.kind {
                IrExprKind::Leaf { leaf, .. } => match leaf {
                    IrExprLeaf::FunctionArgument(i) => match scope_function(m, scope_of(e)) {
                        Some(f) => if (i as int) < f.arguments@.len() {
                            Some(f.arguments@[i as int].ty)
                        } else {
                            None
                        },
                        None => None,
                    },
                    IrExprLeaf::GlobalVariable(g) => if g < m.globals@.len() {
                        Some(m.globals@[g as int].ty)
                    } else {
                        None
                    },
                    IrExprLeaf::LocalVariable(l) => match scope_function(m, scope_of(e)) {
                        Some(f) => if l < f.locals@.len() {
                            Some(f.locals@[l as int].ty)
                        } else {
                            None
                        },
                        None => None,
                    },
                    _ => None,
                },
                IrExprKind::Operands { op } => match op {
                    IrExprOp::Load { pointer } => match type_of_expr(m, (e.0, pointer), (fuel - 1) as nat) {
                        Some(t) => Some(deref_ty(m, t)),
                        None => None,
                    },
                    IrExprOp::AccessIndex { base, index } => match type_of_expr(m, (e.0, base), (fuel - 1) as nat) {
                        Some(t) => access_index_ty(m, t, index),
                        None => None,
                    },
                    IrExprOp::Access { base, .. } => match type_of_expr(m, (e.0, base), (fuel - 1) as nat) {
                        Some(t) => indexed_ty(m, t),
                        None => None,
                    },
                    _ => None,
                },
                IrExprKind::Compose { ty, .. } => Some(ty),
                _ => None,
            },
        }
    }
}

/// The type of `e`. An arena in which operands come before their users never
/// has a chain longer than the arena.
pub open spec fn expr_type(m: ShaderModule, e: (Option<Seq<char>>, usize)) -> Option<usize> {
    type_of_expr(m, e, arena_len(m, e))
}

/// The number of components of a vector type `t`, or of what it points to.
pub open spec fn vector_size_of(m: ShaderModule, t: usize) -> Option<usize> {
    let d = deref_ty(m, t);
    if d < m.types@.len() {
        match m.types@[d as int].shape {
            IrTypeShape::Vector { size } => Some(size),
            _ => None,
        }
    } else {
        None
    }
}

/// The number of components of a vector-typed `e`.
pub open spec fn vector_width(m: ShaderModule, e: (Option<Seq<char>>, usize)) -> Option<usize> {
    match expr_type(m, e) {
        Some(t) => vector_size_of(m, t),
        None => None,
    }
}

/// The components a value of type `t` carries: a vector's size, else one.
pub open spec fn type_components(m: ShaderModule, t: usize) -> usize {
    match vector_size_of(m, t) {
        Some(n) => n,
        None => 1,
    }
}

/// The name of member `index` of a struct-typed `base`: its declared name,
/// else `field_<index>`.
pub open spec fn member_name(m: ShaderModule, base: (Option<Seq<char>>, usize), index: u32) -> Option<Seq<char>> {
    match expr_type(m, base) {
        None => None,
        Some(t) => {
            let d = deref_ty(m, t);
            if d < m.types@.len() {
                match m.types@[d as int].shape {
                    IrTypeShape::Struct { members } => Some(
                        if (index as int) < members@.len() && members@[index as int].name is Some {
                            members@[index as int].name->0@
                        } else {
                            "field_"@ + spec_decimal(index as nat)
                        },
                    ),
                    _ => None,
                }
            } else {
                None
            }
        },
    }
}

/// How an access of member or component `index` of `base` is written:
/// `.name`, `.x` to `.w`, or `[index]`.
pub open spec fn index_suffix(m: ShaderModule, base: (Option<Seq<char>>, usize), index: u32) -> Seq<char> {
    match member_name(m, base, index) {
        Some(n) => "."@ + n,
        None => match spec_component_for_index(index) {
            Some(c) => "."@ + c,
            None => "["@ + spec_decimal(index as nat) + "]"@,
        },
    }
}

/// The components selected by accessing `index` of `base`, given the
/// projection `pp` of the path to `base`: the `index`-th of `pp`, or `index`
/// itself when `base` is a vector wider than `index`.
pub open spec fn access_index_projection(
    m: ShaderModule,
    base: (Option<Seq<char>>, usize),
    pp: Option<Seq<u32>>,
    index: u32,
) -> Option<Seq<u32>> {
    match pp {
        Some(p) => if (index as int) < p.len() {
            Some(seq![p[index as int]])
        } else {
            None
        },
        None => match vector_width(m, base) {
            Some(w) => if (index as int) < w {
                Some(seq![index])
            } else {
                None
            },
            None => None,
        },
    }
}

/// The component indices of the first `size` (at most four) lanes of a
/// swizzle pattern.
pub open spec fn swizzle_indices(size: usize, pattern: [IrSwizzleComponent; 4]) -> Seq<u32> {
    Seq::new(if size < 4 { size as nat } else { 4 }, |i: int| spec_component_index(pattern@[i]))
}

/// The elements of `p` at the indices `idx` that `p` has, in order.
pub open spec fn pick(idx: Seq<u32>, p: Seq<u32>) -> Seq<u32>
    decreases idx.len(),
{
    if idx.len() == 0 {
        seq![]
    } else if (idx.last() as int) < p.len() {
        pick(idx.drop_last(), p).push(p[idx.last() as int])
    } else {
        pick(idx.drop_last(), p)
    }
}

/// The components selected by a swizzle of `vector`, given the projection
/// `pp` of the path to `vector`.
pub open spec fn swizzle_projection(
    m: ShaderModule,
    vector: (Option<Seq<char>>, usize),
    pp: Option<Seq<u32>>,
    size: usize,
    pattern: [IrSwizzleComponent; 4],
) -> Option<Seq<u32>> {
    let idx = swizzle_indices(size, pattern);
    if idx.len() == 0 {
        None
    } else {
        match pp {
            Some(p) => Some(spec_dedupe(pick(idx, p))),
            None => match vector_width(m, vector) {
                Some(_) => Some(spec_dedupe(idx)),
                None => None,
            },
        }
    }
}

pub open spec fn min_int(a: int, b: int) -> int {
    if a < b {
        a
    } else {
        b
    }
}

/// Where the value target `value_tid` is named on the line of the named
/// `let` that `e` is: after the `let`'s name, else anywhere on that line.
pub open spec fn named_value_range(
    m: ShaderModule,
    b: Seq<u8>,
    known: Seq<TargetSpec>,
    e: (Option<Seq<char>>, usize),
    value_tid: Seq<char>,
) -> Option<PassDebugSourceRange> {
    match named_target(m, e) {
        None => None,
        Some(nt) => match known_range(known, nt) {
            None => None,
            Some(nr) => match target_name(known, value_tid) {
                None => None,
                Some(name) => match spec_line_range(b, nr.start_byte as int) {
                    None => None,
                    Some(line) => {
                        let rhs = min_int(nr.end_byte as int, line.1);
                        or_range(
                            spec_occurrence_range(b, encode_utf8(name), rhs, line.1, 0, false),
                            spec_occurrence_range(b, encode_utf8(name), line.0, line.1, 0, false),
                        )
                    },
                },
            },
        },
    }
}

/// The range that shows the access `e` into `tid`.
pub open spec fn access_range(
    m: ShaderModule,
    b: Seq<u8>,
    known: Seq<TargetSpec>,
    e: (Option<Seq<char>>, usize),
    tid: Seq<char>,
) -> Option<PassDebugSourceRange> {
    or_range(expr_span_range(m, b, e), named_value_range(m, b, known, e, tid))
}

/// The target `x` (expression `e`) names directly: an argument, a global or
/// a local.
pub open spec fn direct_target(e: (Option<Seq<char>>, usize), x: IrExpression) -> Option<Seq<char>> {
    match x.kind {
        IrExprKind::Leaf { leaf, .. } => match leaf {
            IrExprLeaf::FunctionArgument(i) => Some(spec_scoped_id(scope_of(e), "arg"@, i as nat)),
            IrExprLeaf::GlobalVariable(g) => Some(spec_global_id(g as nat)),
            IrExprLeaf::LocalVariable(l) => Some(spec_scoped_id(scope_of(e), "local"@, l as nat)),
            _ => None,
        },
        _ => None,
    }
}

/// A named `let` is its own access path unless it merely renames the
/// argument, global or local it is bound to under the same name.
pub open spec fn use_named_path(
    known: Seq<TargetSpec>,
    e: (Option<Seq<char>>, usize),
    x: IrExpression,
    nt: Seq<char>,
) -> bool {
    match direct_target(e, x) {
        None => true,
        Some(u) => target_name(known, nt) != target_name(known, u),
    }
}

pub struct AccessPathView {
    pub target_id: Seq<char>,
    pub display_label: Seq<char>,
    pub source_range: Option<PassDebugSourceRange>,
    pub projection: Option<Seq<u32>>,
}

pub open spec fn leaf_path(
    m: ShaderModule,
    b: Seq<u8>,
    known: Seq<TargetSpec>,
    e: (Option<Seq<char>>, usize),
    tid: Seq<char>,
) -> Option<AccessPathView> {
    match target_name(known, tid) {
        None => None,
        Some(label) => Some(
            AccessPathView {
                target_id: tid,
                display_label: label,
                source_range: access_range(m, b, known, e, tid),
                projection: None,
            },
        ),
    }
}

/// The access path of `e`, following at most `fuel` links; targets in
/// `stack` are not used as named paths.
pub open spec fn access_path(
    m: ShaderModule,
    b: Seq<u8>,
    known: Seq<TargetSpec>,
    e: (Option<Seq<char>>, usize),
    stack: Seq<Seq<char>>,
    fuel: nat,
) -> Option<AccessPathView>
    decreases fuel,
{
    if fuel == 0 {
        None
    } else {
        match expr_at(m, e) {
            None => None,
            Some(x) => {
                let named = named_target(m, e);
                if named is Some && !stack.contains(named->0) && use_named_path(known, e, x, named->0) {
                    let nt = named->0;
                    match target_name(known, nt) {
                        None => None,
                        Some(label) => Some(
                            AccessPathView {
                                target_id: nt,
                                display_label: label,
                                source_range: or_range(expr_span_range(m, b, e), known_range(known, nt)),
                                projection: None,
                            },
                        ),
                    }
                } else {
                    match x.kind {
                        IrExprKind::Leaf { .. } => match direct_target(e, x) {
                            Some(tid) => leaf_path(m, b, known, e, tid),
                            None => None,
                        },
                        IrExprKind::Operands { op } => match op {
                            IrExprOp::Load { pointer } => match access_path(m, b, known, (e.0, pointer), stack, (fuel - 1) as nat) {
                                None => None,
                                Some(p) => Some(
                                    AccessPathView {
                                        source_range: or_range(access_range(m, b, known, e, p.target_id), p.source_range),
                                        ..p
                                    },
                                ),
                            },
                            IrExprOp::AccessIndex { base, index } => match access_path(m, b, known, (e.0, base), stack, (fuel - 1) as nat) {
                                None => None,
                                Some(p) => Some(
                                    AccessPathView {
                                        target_id: p.target_id,
                                        display_label: p.display_label + index_suffix(m, (e.0, base), index),
                                        source_range: or_range(access_range(m, b, known, e, p.target_id), p.source_range),
                                        projection: access_index_projection(m, (e.0, base), p.projection, index),
                                    },
                                ),
                            },
                            IrExprOp::Access { base, .. } => match access_path(m, b, known, (e.0, base), stack, (fuel - 1) as nat) {
                                None => None,
                                Some(p) => Some(
                                    AccessPathView {
                                        display_label: p.display_label + "[]"@,
                                        source_range: or_range(access_range(m, b, known, e, p.target_id), p.source_range),
                                        ..p
                                    },
                                ),
                            },
                            _ => None,
                        },
                        IrExprKind::Swizzle { size, vector, pattern } => match access_path(m, b, known, (e.0, vector), stack, (fuel - 1) as nat) {
                            None => None,
                            Some(p) => Some(
                                AccessPathView {
                                    target_id: p.target_id,
                                    display_label: p.display_label + "."@ + spec_swizzle_pattern_label(size, pattern),
                                    source_range: or_range(access_range(m, b, known, e, p.target_id), p.source_range),
                                    projection: swizzle_projection(m, (e.0, vector), p.projection, size, pattern),
                                },
                            ),
                        },
                        _ => None,
                    }
                }
            },
        }
    }
}

/// The access path of `e`.
pub open spec fn spec_access_path(
    m: ShaderModule,
    b: Seq<u8>,
    known: Seq<TargetSpec>,
    e: (Option<Seq<char>>, usize),
    stack: Seq<Seq<char>>,
) -> Option<AccessPathView> {
    access_path(m, b, known, e, stack, arena_len(m, e))
}

// ---------------------------------------------------------------------------
// Executable lookups
// ---------------------------------------------------------------------------

/// The function of scope `s`.
pub fn scope_function_exec<'a>(m: &'a ShaderModule, s: &str) -> (r: Option<&'a IrFunction>)
    ensures
        match r {
            Some(f) => scope_function(*m, s@) == Some(*f),
            None => scope_function(*m, s@) == None::<IrFunction>,
        },
{
    let wanted = owned(s);
    let mut k = m.functions.len();
    while k > 0
        invariant
            k <= m.functions@.len(),
            wanted@ == s@,
            last_function(*m, s@, m.functions@.len() as int) == last_function(*m, s@, k as int),
        decreases k,
    {
        let f = &m.functions[k - 1];
        let fs = function_scope(k - 1, &f.name);
        if fs == wanted {
            return Some(f);
        }
        k = k - 1;
    }
    let mut k = m.entry_points.len();
    while k > 0
        invariant
            k <= m.entry_points@.len(),
            wanted@ == s@,
            last_function(*m, s@, m.functions@.len() as int) == None::<IrFunction>,
            last_entry(*m, s@, m.entry_points@.len() as int) == last_entry(*m, s@, k as int),
        decreases k,
    {
        let e = &m.entry_points[k - 1];
        if e.name == wanted {
            return Some(&e.function);
        }
        k = k - 1;
    }
    None
}

/// The scope of `e`: `module` for global expressions.
pub fn scope_of_exec(e: &ExprRef) -> (r: String)
    ensures
        r@ == scope_of(eview(*e)),
{
    match &e.scope {
        Some(s) => s.clone(),
        None => owned("module"),
    }
}

/// The expression `e` of scope `e.scope` with handle `h`.
pub fn sibling(e: &ExprRef, h: usize) -> (r: ExprRef)
    ensures
        eview(r) == (eview(*e).0, h),
{
    ExprRef { scope: e.scope.clone(), handle: h }
}

pub fn expr_at_exec<'a>(m: &'a ShaderModule, e: &ExprRef) -> (r: Option<&'a IrExpression>)
    ensures
        match r {
            Some(x) => expr_at(*m, eview(*e)) == Some(*x),
            None => expr_at(*m, eview(*e)) == None::<IrExpression>,
        },
{
    match &e.scope {
        None => if e.handle < m.global_expressions.len() {
            Some(&m.global_expressions[e.handle])
        } else {
            None
        },
        Some(s) => match scope_function_exec(m, s.as_str()) {
            Some(f) => if e.handle < f.expressions.len() {
                Some(&f.expressions[e.handle])
            } else {
                None
            },
            None => None,
        },
    }
}

pub fn arena_len_exec(m: &ShaderModule, e: &ExprRef) -> (r: usize)
    ensures
        r == arena_len(*m, eview(*e)),
{
    match &e.scope {
        None => m.global_expressions.len(),
        Some(s) => match scope_function_exec(m, s.as_str()) {
            Some(f) => f.expressions.len(),
            None => 0,
        },
    }
}

fn has_named_expression(f: &IrFunction, h: usize) -> (r: bool)
    ensures
        r == exists|j: int| 0 <= j < f.named_expressions@.len() && #[trigger] f.named_expressions@[j].handle == h,
{
    let mut j: usize = 0;
    while j < f.named_expressions.len()
        invariant
            j <= f.named_expressions@.len(),
            forall|q: int| 0 <= q < j ==> #[trigger] f.named_expressions@[q].handle != h,
        decreases f.named_expressions@.len() - j,
    {
        if f.named_expressions[j].handle == h {
            assert(f.named_expressions@[j as int].handle == h);
            return true;
        }
        j = j + 1;
    }
    false
}

/// The target id of the named `let` that `e` is.
pub fn named_expression_target_id(m: &ShaderModule, e: &ExprRef) -> (r: Option<String>)
    ensures
        opt_string(r) == named_target(*m, eview(*e)),
{
    match &e.scope {
        None => None,
        Some(s) => match scope_function_exec(m, s.as_str()) {
            None => None,
            Some(f) => if has_named_expression(f, e.handle) {
                Some(scoped_id(s.as_str(), "expr", e.handle))
            } else {
                None
            },
        },
    }
}

/// `target_name_for_id`: the name of the first target with id `id`.
pub fn target_name_for_id(known: &Vec<PassDebugDependencyTarget>, id: &String) -> (r: Option<String>)
    ensures
        opt_string(r) == target_name(tviews(known@), id@),
{
    match super::flow::find_known(known, id) {
        Some(i) => Some(known[i].name.clone()),
        None => None,
    }
}

/// `source_range_for_expr`.
pub fn source_range_for_expr(m: &ShaderModule, source: &str, e: &ExprRef) -> (r: Option<PassDebugSourceRange>)
    ensures
        r == expr_span_range(*m, source.spec_bytes(), eview(*e)),
{
    match expr_at_exec(m, e) {
        Some(x) => match x.span {
            Some(s) => source_range_from_byte_range(source, core::ops::Range { start: s.start, end: s.end }),
            None => None,
        },
        None => None,
    }
}

// ---------------------------------------------------------------------------
// Executable type queries
// ---------------------------------------------------------------------------

pub fn deref_type_handle(m: &ShaderModule, t: usize) -> (r: usize)
    ensures
        r == deref_ty(*m, t),
{
    if t < m.types.len() {
        match &m.types[t].shape {
            IrTypeShape::Pointer { base } => *base,
            _ => t,
        }
    } else {
        t
    }
}

pub fn access_index_type_handle(m: &ShaderModule, t: usize, index: u32) -> (r: Option<usize>)
    ensures
        r == access_index_ty(*m, t, index),
{
    let d = deref_type_handle(m, t);
    if d < m.types.len() {
        match &m.types[d].shape {
            IrTypeShape::Struct { members } => if (index as usize) < members.len() {
                Some(members[index as usize].ty)
            } else {
                None
            },
            IrTypeShape::Array { base } => Some(*base),
            IrTypeShape::BindingArray { base } => Some(*base),
            _ => None,
        }
    } else {
        None
    }
}

pub fn indexed_type_handle(m: &ShaderModule, t: usize) -> (r: Option<usize>)
    ensures
        r == indexed_ty(*m, t),
{
    let d = deref_type_handle(m, t);
    if d < m.types.len() {
        match &m.types[d].shape {
            IrTypeShape::Array { base } => Some(*base),
            IrTypeShape::BindingArray { base } => Some(*base),
            _ => None,
        }
    } else {
        None
    }
}

fn type_of_expr_exec(m: &ShaderModule, e: &ExprRef, fuel: usize) -> (r: Option<usize>)
    ensures
        r == type_of_expr(*m, eview(*e), fuel as nat),
    decreases fuel,
{
    if fuel == 0 {
        return None;
    }
    let x = match expr_at_exec(m, e) {
        Some(x) => x,
        None => {
            return None;
        },
    };
    match &x.kind {
        IrExprKind::Leaf { leaf, .. } => match leaf {
            IrExprLeaf::FunctionArgument(i) => {
                let scope = scope_of_exec(e);
                match scope_function_exec(m, scope.as_str()) {
                    Some(f) => if (*i as usize) < f.arguments.len() {
                        Some(f.arguments[*i as usize].ty)
                    } else {
                        None
                    },
                    None => None,
                }
            },
            IrExprLeaf::GlobalVariable(g) => if *g < m.globals.len() {
                Some(m.globals[*g].ty)
            } else {
                None
            },
            IrExprLeaf::LocalVariable(l) => {
                let scope = scope_of_exec(e);
                match scope_function_exec(m, scope.as_str()) {
                    Some(f) => if *l < f.locals.len() {
                        Some(f.locals[*l].ty)
                    } else {
                        None
                    },
                    None => None,
                }
            },
            _ => None,
        },
        IrExprKind::Operands { op } => match op {
            IrExprOp::Load { pointer } => match type_of_expr_exec(m, &sibling(e, *pointer), fuel - 1) {
                Some(t) => Some(deref_type_handle(m, t)),
                None => None,
            },
            IrExprOp::AccessIndex { base, index } => match type_of_expr_exec(m, &sibling(e, *base), fuel - 1) {
                Some(t) => access_index_type_handle(m, t, *index),
                None => None,
            },
            IrExprOp::Access { base, .. } => match type_of_expr_exec(m, &sibling(e, *base), fuel - 1) {
                Some(t) => indexed_type_handle(m, t),
                None => None,
            },
            _ => None,
        },
        IrExprKind::Compose { ty, .. } => Some(*ty),
        _ => None,
    }
}

/// `type_handle_for_expr`: the declared type of what `e` reads.
pub fn type_handle_for_expr(m: &ShaderModule, e: &ExprRef) -> (r: Option<usize>)
    ensures
        r == expr_type(*m, eview(*e)),
{
    let fuel = arena_len_exec(m, e);
    type_of_expr_exec(m, e, fuel)
}

pub fn vector_size_of_type(m: &ShaderModule, t: usize) -> (r: Option<usize>)
    ensures
        r == vector_size_of(*m, t),
{
    let d = deref_type_handle(m, t);
    if d < m.types.len() {
        match &m.types[d].shape {
            IrTypeShape::Vector { size } => Some(*size),
            _ => None,
        }
    } else {
        None
    }
}

/// `vector_width_for_expr`.
pub fn vector_width_for_expr(m: &ShaderModule, e: &ExprRef) -> (r: Option<usize>)
    ensures
        r == vector_width(*m, eview(*e)),
{
    match type_handle_for_expr(m, e) {
        Some(t) => vector_size_of_type(m, t),
        None => None,
    }
}

/// `type_component_count`.
pub fn type_component_count(m: &ShaderModule, t: usize) -> (r: usize)
    ensures
        r == type_components(*m, t),
{
    match vector_size_of_type(m, t) {
        Some(n) => n,
        None => 1,
    }
}

/// `struct_member_name`.
pub fn struct_member_name(m: &ShaderModule, base: &ExprRef, index: u32) -> (r: Option<String>)
    ensures
        opt_string(r) == member_name(*m, eview(*base), index),
{
    let t = match type_handle_for_expr(m, base) {
        Some(t) => t,
        None => {
            return None;
        },
    };
    let d = deref_type_handle(m, t);
    if d < m.types.len() {
        match &m.types[d].shape {
            IrTypeShape::Struct { members } => {
                if (index as usize) < members.len() {
                    match &members[index as usize].name {
                        Some(n) => {
                            return Some(n.clone());
                        },
                        None => {},
                    }
                }
                let digits = decimal(index as usize);
                Some(concat("field_", digits.as_str()))
            },
            _ => None,
        }
    } else {
        None
    }
}

/// `access_index_suffix`.
pub fn access_index_suffix(m: &ShaderModule, base: &ExprRef, index: u32) -> (r: String)
    ensures
        r@ == index_suffix(*m, eview(*base), index),
{
    match struct_member_name(m, base, index) {
        Some(n) => concat(".", n.as_str()),
        None => match swizzle_component_for_index(index) {
            Some(c) => concat(".", c),
            None => {
                let digits = decimal(index as usize);
                let mut r = concat("[", digits.as_str());
                r.append("]");
                r
            },
        },
    }
}

// ---------------------------------------------------------------------------
// Executable projections and ranges
// ---------------------------------------------------------------------------

pub open spec fn opt_indices(o: Option<Vec<u32>>) -> Option<Seq<u32>> {
    match o {
        Some(v) => Some(v@),
        None => None,
    }
}

/// `access_index_projection`.
pub fn access_index_projection_exec(
    m: &ShaderModule,
    base: &ExprRef,
    pp: &Option<Vec<u32>>,
    index: u32,
) -> (r: Option<Vec<u32>>)
    ensures
        opt_indices(r) == access_index_projection(*m, eview(*base), opt_indices(*pp), index),
{
    match pp {
        Some(p) => if (index as usize) < p.len() {
            let mut v: Vec<u32> = Vec::new();
            v.push(p[index as usize]);
            assert(v@ =~= seq![p@[index as int]]);
            Some(v)
        } else {
            None
        },
        None => match vector_width_for_expr(m, base) {
            Some(w) => if (index as usize) < w {
                let mut v: Vec<u32> = Vec::new();
                v.push(index);
                assert(v@ =~= seq![index]);
                Some(v)
            } else {
                None
            },
            None => None,
        },
    }
}

fn swizzle_indices_exec(size: usize, pattern: [IrSwizzleComponent; 4]) -> (r: Vec<u32>)
    ensures
        r@ == swizzle_indices(size, pattern),
{
    let n: usize = if size < 4 {
        size
    } else {
        4
    };
    let mut out: Vec<u32> = Vec::new();
    let mut i: usize = 0;
    while i < n
        invariant
            n <= 4,
            n == (if size < 4 { size as nat } else { 4 }),
            i <= n,
            out@ == swizzle_indices(size, pattern).take(i as int),
        decreases n - i,
    {
        match swizzle_component_index(pattern[i]) {
            Some(c) => {
                out.push(c);
            },
            None => {},
        }
        assert(swizzle_indices(size, pattern).take(i + 1) =~= swizzle_indices(size, pattern).take(i as int).push(
            spec_component_index(pattern@[i as int]),
        ));
        i = i + 1;
    }
    assert(swizzle_indices(size, pattern).take(i as int) =~= swizzle_indices(size, pattern));
    out
}

fn pick_exec(idx: &Vec<u32>, p: &Vec<u32>) -> (r: Vec<u32>)
    ensures
        r@ == pick(idx@, p@),
{
    let mut out: Vec<u32> = Vec::new();
    let mut i: usize = 0;
    while i < idx.len()
        invariant
            i <= idx@.len(),
            out@ == pick(idx@.take(i as int), p@),
        decreases idx@.len() - i,
    {
        assert(idx@.take(i + 1).drop_last() =~= idx@.take(i as int));
        if (idx[i] as usize) < p.len() {
            out.push(p[idx[i] as usize]);
        }
        i = i + 1;
    }
    assert(idx@.take(i as int) =~= idx@);
    out
}

/// `swizzle_projection`.
pub fn swizzle_projection_exec(
    m: &ShaderModule,
    vector: &ExprRef,
    pp: &Option<Vec<u32>>,
    size: usize,
    pattern: [IrSwizzleComponent; 4],
) -> (r: Option<Vec<u32>>)
    ensures
        opt_indices(r) == swizzle_projection(*m, eview(*vector), opt_indices(*pp), size, pattern),
{
    let idx = swizzle_indices_exec(size, pattern);
    if idx.len() == 0 {
        return None;
    }
    match pp {
        Some(p) => {
            let picked = pick_exec(&idx, p);
            Some(dedupe_projection(picked))
        },
        None => match vector_width_for_expr(m, vector) {
            Some(_) => Some(dedupe_projection(idx)),
            None => None,
        },
    }
}

/// `named_expression_value_source_range`.
pub fn named_expression_value_source_range(
    m: &ShaderModule,
    source: &str,
    known: &Vec<PassDebugDependencyTarget>,
    e: &ExprRef,
    value_tid: &String,
) -> (r: Option<PassDebugSourceRange>)
    ensures
        r == named_value_range(*m, source.spec_bytes(), tviews(known@), eview(*e), value_tid@),
{
    let nt = match named_expression_target_id(m, e) {
        Some(nt) => nt,
        None => {
            return None;
        },
    };
    let nr = match super::flow::find_known(known, &nt) {
        Some(i) => match known[i].source_range {
            Some(r) => r,
            None => {
                return None;
            },
        },
        None => {
            return None;
        },
    };
    let name = match target_name_for_id(known, value_tid) {
        Some(n) => n,
        None => {
            return None;
        },
    };
    let line = match source_line_byte_range(source, nr.start_byte) {
        Some(l) => l,
        None => {
            return None;
        },
    };
    let rhs = if nr.end_byte < line.end {
        nr.end_byte
    } else {
        line.end
    };
    match find_identifier_range(source, core::ops::Range { start: rhs, end: line.end }, name.as_str()) {
        Some(r) => Some(r),
        None => find_identifier_range(source, core::ops::Range { start: line.start, end: line.end }, name.as_str()),
    }
}

/// `access_path_source_range`.
pub fn access_path_source_range(
    m: &ShaderModule,
    source: &str,
    known: &Vec<PassDebugDependencyTarget>,
    e: &ExprRef,
    tid: &String,
) -> (r: Option<PassDebugSourceRange>)
    ensures
        r == access_range(*m, source.spec_bytes(), tviews(known@), eview(*e), tid@),
{
    match source_range_for_expr(m, source, e) {
        Some(r) => Some(r),
        None => named_expression_value_source_range(m, source, known, e, tid),
    }
}

/// `direct_access_target_id`.
pub fn direct_access_target_id(e: &ExprRef, x: &IrExpression) -> (r: Option<String>)
    ensures
        opt_string(r) == direct_target(eview(*e), *x),
{
    match &x.kind {
        IrExprKind::Leaf { leaf, .. } => match leaf {
            IrExprLeaf::FunctionArgument(i) => {
                let scope = scope_of_exec(e);
                Some(scoped_id(scope.as_str(), "arg", *i as usize))
            },
            IrExprLeaf::GlobalVariable(g) => Some(global_id(*g)),
            IrExprLeaf::LocalVariable(l) => {
                let scope = scope_of_exec(e);
                Some(scoped_id(scope.as_str(), "local", *l))
            },
            _ => None,
        },
        _ => None,
    }
}

fn same_name(a: &Option<String>, b: &Option<String>) -> (r: bool)
    ensures
        r == (opt_string(*a) == opt_string(*b)),
{
    match (a, b) {
        (Some(x), Some(y)) => *x == *y,
        (None, None) => true,
        _ => false,
    }
}

/// `should_use_named_expression_access_path`.
pub fn should_use_named_expression_access_path(
    known: &Vec<PassDebugDependencyTarget>,
    e: &ExprRef,
    x: &IrExpression,
    nt: &String,
) -> (r: bool)
    ensures
        r == use_named_path(tviews(known@), eview(*e), *x, nt@),
{
    match direct_access_target_id(e, x) {
        None => true,
        Some(u) => {
            let a = target_name_for_id(known, nt);
            let b = target_name_for_id(known, &u);
            !same_name(&a, &b)
        },
    }
}

// ---------------------------------------------------------------------------
// Access paths
// ---------------------------------------------------------------------------

/// The target at the root of an access chain, how the chain is written, the
/// range that shows it, and the target components it selects.
pub struct AccessPathTarget {
    pub target_id: String,
    pub display_label: String,
    pub source_range: Option<PassDebugSourceRange>,
    pub projection: Option<Vec<u32>>,
}

pub open spec fn path_view(p: AccessPathTarget) -> AccessPathView {
    AccessPathView {
        target_id: p.target_id@,
        display_label: p.display_label@,
        source_range: p.source_range,
        projection: opt_indices(p.projection),
    }
}

pub open spec fn opt_path(o: Option<AccessPathTarget>) -> Option<AccessPathView> {
    match o {
        Some(p) => Some(path_view(p)),
        None => None,
    }
}

pub open spec fn strings_view(v: Seq<String>) -> Seq<Seq<char>> {
    v.map_values(|s: String| s@)
}

fn contains_string(v: &Vec<String>, s: &String) -> (r: bool)
    ensures
        r == strings_view(v@).contains(s@),
{
    let mut i: usize = 0;
    while i < v.len()
        invariant
            i <= v@.len(),
            forall|j: int| 0 <= j < i ==> v@[j]@ != s@,
        decreases v@.len() - i,
    {
        if v[i] == *s {
            assert(strings_view(v@)[i as int] == s@);
            return true;
        }
        i = i + 1;
    }
    proof {
        if strings_view(v@).contains(s@) {
            let j = choose|j: int| 0 <= j < strings_view(v@).len() && strings_view(v@)[j] == s@;
            assert(v@[j]@ == s@);
        }
    }
    false
}

fn leaf_path_exec(
    m: &ShaderModule,
    source: &str,
    known: &Vec<PassDebugDependencyTarget>,
    e: &ExprRef,
    tid: String,
) -> (r: Option<AccessPathTarget>)
    ensures
        opt_path(r) == leaf_path(*m, source.spec_bytes(), tviews(known@), eview(*e), tid@),
{
    match target_name_for_id(known, &tid) {
        None => None,
        Some(label) => {
            let range = access_path_source_range(m, source, known, e, &tid);
            Some(AccessPathTarget { target_id: tid, display_label: label, source_range: range, projection: None })
        },
    }
}

fn access_path_exec(
    m: &ShaderModule,
    source: &str,
    known: &Vec<PassDebugDependencyTarget>,
    e: &ExprRef,
    stack: &Vec<String>,
    fuel: usize,
) -> (r: Option<AccessPathTarget>)
    ensures
        opt_path(r) == access_path(*m, source.spec_bytes(), tviews(known@), eview(*e), strings_view(stack@), fuel as nat),
    decreases fuel,
{
    if fuel == 0 {
        return None;
    }
    let x = match expr_at_exec(m, e) {
        Some(x) => x,
        None => {
            return None;
        },
    };
    match named_expression_target_id(m, e) {
        Some(nt) => {
            if !contains_string(stack, &nt) && should_use_named_expression_access_path(known, e, x, &nt) {
                return match target_name_for_id(known, &nt) {
                    None => None,
                    Some(label) => {
                        let range = match source_range_for_expr(m, source, e) {
                            Some(r) => Some(r),
                            None => match super::flow::find_known(known, &nt) {
                                Some(i) => known[i].source_range,
                                None => None,
                            },
                        };
                        Some(AccessPathTarget { target_id: nt, display_label: label, source_range: range, projection: None })
                    },
                };
            }
        },
        None => {},
    }
    match &x.kind {
        IrExprKind::Leaf { .. } => match direct_access_target_id(e, x) {
            Some(tid) => leaf_path_exec(m, source, known, e, tid),
            None => None,
        },
        IrExprKind::Operands { op } => match op {
            IrExprOp::Load { pointer } => {
                let inner = sibling(e, *pointer);
                match access_path_exec(m, source, known, &inner, stack, fuel - 1) {
                    None => None,
                    Some(p) => {
                        let range = match access_path_source_range(m, source, known, e, &p.target_id) {
                            Some(r) => Some(r),
                            None => p.source_range,
                        };
                        Some(AccessPathTarget { source_range: range, ..p })
                    },
                }
            },
            IrExprOp::AccessIndex { base, index } => {
                let base_ref = sibling(e, *base);
                match access_path_exec(m, source, known, &base_ref, stack, fuel - 1) {
                    None => None,
                    Some(p) => {
                        let projection = access_index_projection_exec(m, &base_ref, &p.projection, *index);
                        let suffix = access_index_suffix(m, &base_ref, *index);
                        let mut label = p.display_label;
                        label.append(suffix.as_str());
                        let range = match access_path_source_range(m, source, known, e, &p.target_id) {
                            Some(r) => Some(r),
                            None => p.source_range,
                        };
                        Some(AccessPathTarget { target_id: p.target_id, display_label: label, source_range: range, projection })
                    },
                }
            },
            IrExprOp::Access { base, .. } => {
                let base_ref = sibling(e, *base);
                match access_path_exec(m, source, known, &base_ref, stack, fuel - 1) {
                    None => None,
                    Some(p) => {
                        let mut label = p.display_label;
                        label.append("[]");
                        let range = match access_path_source_range(m, source, known, e, &p.target_id) {
                            Some(r) => Some(r),
                            None => p.source_range,
                        };
                        Some(AccessPathTarget { target_id: p.target_id, display_label: label, source_range: range, projection: p.projection })
                    },
                }
            },
            _ => None,
        },
        IrExprKind::Swizzle { size, vector, pattern } => {
            let vector_ref = sibling(e, *vector);
            match access_path_exec(m, source, known, &vector_ref, stack, fuel - 1) {
                None => None,
                Some(p) => {
                    let projection = swizzle_projection_exec(m, &vector_ref, &p.projection, *size, *pattern);
                    let pattern_label = swizzle_pattern_label(*size, *pattern);
                    let mut label = p.display_label;
                    label.append(".");
                    label.append(pattern_label.as_str());
                    let range = match access_path_source_range(m, source, known, e, &p.target_id) {
                        Some(r) => Some(r),
                        None => p.source_range,
                    };
                    Some(AccessPathTarget { target_id: p.target_id, display_label: label, source_range: range, projection })
                },
            }
        },
        _ => None,
    }
}

/// `access_path_target`: the access path of `e`, not using as a named path
/// any target in `stack`.
pub fn access_path_target(
    m: &ShaderModule,
    source: &str,
    known: &Vec<PassDebugDependencyTarget>,
    e: &ExprRef,
    stack: &Vec<String>,
) -> (r: Option<AccessPathTarget>)
    ensures
        opt_path(r) == spec_access_path(*m, source.spec_bytes(), tviews(known@), eview(*e), strings_view(stack@)),
{
    let fuel = arena_len_exec(m, e);
    access_path_exec(m, source, known, e, stack, fuel)
}

// ---------------------------------------------------------------------------
// Component counts
// ---------------------------------------------------------------------------

/// The components of the result of the call whose result is `e`, by the
/// callee's declared result type.
pub open spec fn call_result_components(
    m: ShaderModule,
    calls: Seq<((Seq<char>, usize), CallView)>,
    e: (Option<Seq<char>>, usize),
) -> Option<usize> {
    match e.0 {
        None => None,
        Some(s) => if has_key(calls, (s, e.1)) {
            let c = calls[first_of(calls, (s, e.1))].1;
            if c.function < m.functions@.len() {
                match m.functions@[c.function as int].result {
                    Some(r) => Some(type_components(m, r.ty)),
                    None => None,
                }
            } else {
                None
            }
        } else {
            None
        },
    }
}

pub open spec fn max_usize(a: usize, b: usize) -> usize {
    if a < b {
        b
    } else {
        a
    }
}

/// How many vector components `e` carries, following at most `fuel` links:
/// a composite or value by its type, a splat or swizzle by its size, an
/// operation by the widest of its operands, a call by its result type.
pub open spec fn component_count(
    m: ShaderModule,
    calls: Seq<((Seq<char>, usize), CallView)>,
    e: (Option<Seq<char>>, usize),
    fuel: nat,
) -> usize
    decreases fuel,
{
    if fuel == 0 {
        1
    } else {
        match expr_at(m, e) {
            None => 1,
            Some(x) => {
                let f = (fuel - 1) as nat;
                match x.kind {
                    IrExprKind::Compose { ty, .. } => type_components(m, ty),
                    IrExprKind::Swizzle { size, .. } => size,
                    IrExprKind::Operands { op } => match op {
                        IrExprOp::Splat { width, .. } => width,
                        IrExprOp::Unary { expr, .. } => component_count(m, calls, (e.0, expr), f),
                        IrExprOp::As { expr, .. } => component_count(m, calls, (e.0, expr), f),
                        IrExprOp::Derivative { expr, .. } => component_count(m, calls, (e.0, expr), f),
                        IrExprOp::Binary { left, right, .. } => max_usize(
                            component_count(m, calls, (e.0, left), f),
                            component_count(m, calls, (e.0, right), f),
                        ),
                        IrExprOp::Select { accept, reject, .. } => max_usize(
                            component_count(m, calls, (e.0, accept), f),
                            component_count(m, calls, (e.0, reject), f),
                        ),
                        IrExprOp::Math { arg, arg1, arg2, arg3, .. } => {
                            let c0 = component_count(m, calls, (e.0, arg), f);
                            let c1 = match arg1 {
                                Some(h) => max_usize(c0, component_count(m, calls, (e.0, h), f)),
                                None => c0,
                            };
                            let c2 = match arg2 {
                                Some(h) => max_usize(c1, component_count(m, calls, (e.0, h), f)),
                                None => c1,
                            };
                            match arg3 {
                                Some(h) => max_usize(c2, component_count(m, calls, (e.0, h), f)),
                                None => c2,
                            }
                        },
                        _ => match expr_type(m, e) {
                            Some(t) => type_components(m, t),
                            None => 1,
                        },
                    },
                    IrExprKind::Leaf { leaf: IrExprLeaf::CallResult(_), .. } => match call_result_components(m, calls, e) {
                        Some(c) => c,
                        None => 1,
                    },
                    _ => match expr_type(m, e) {
                        Some(t) => type_components(m, t),
                        None => 1,
                    },
                }
            },
        }
    }
}

pub open spec fn spec_component_count(
    m: ShaderModule,
    calls: Seq<((Seq<char>, usize), CallView)>,
    e: (Option<Seq<char>>, usize),
) -> usize {
    component_count(m, calls, e, arena_len(m, e))
}

/// `call_result_component_count`.
pub fn call_result_component_count(m: &ShaderModule, calls: &Vec<CallDependency>, e: &ExprRef) -> (r: Option<usize>)
    ensures
        r == call_result_components(*m, flow_calls(calls@), eview(*e)),
{
    match &e.scope {
        None => None,
        Some(s) => match super::flow::find_call(calls, s, e.handle) {
            None => None,
            Some(i) => {
                proof {
                    super::flow::lemma_first_unique(
                        keys_of(flow_calls(calls@)),
                        (s@, e.handle),
                        i as int,
                        first_of(flow_calls(calls@), (s@, e.handle)),
                    );
                }
                let function = calls[i].function;
                if function < m.functions.len() {
                    match &m.functions[function].result {
                        Some(r) => Some(type_component_count(m, r.ty)),
                        None => None,
                    }
                } else {
                    None
                }
            },
        },
    }
}

fn component_count_exec(m: &ShaderModule, calls: &Vec<CallDependency>, e: &ExprRef, fuel: usize) -> (r: usize)
    ensures
        r == component_count(*m, flow_calls(calls@), eview(*e), fuel as nat),
    decreases fuel,
{
    if fuel == 0 {
        return 1;
    }
    let x = match expr_at_exec(m, e) {
        Some(x) => x,
        None => {
            return 1;
        },
    };
    let f = fuel - 1;
    match &x.kind {
        IrExprKind::Compose { ty, .. } => type_component_count(m, *ty),
        IrExprKind::Swizzle { size, .. } => *size,
        IrExprKind::Operands { op } => match op {
            IrExprOp::Splat { width, .. } => *width,
            IrExprOp::Unary { expr, .. } => component_count_exec(m, calls, &sibling(e, *expr), f),
            IrExprOp::As { expr, .. } => component_count_exec(m, calls, &sibling(e, *expr), f),
            IrExprOp::Derivative { expr, .. } => component_count_exec(m, calls, &sibling(e, *expr), f),
            IrExprOp::Binary { left, right, .. } => {
                let a = component_count_exec(m, calls, &sibling(e, *left), f);
                let b = component_count_exec(m, calls, &sibling(e, *right), f);
                if a < b { b } else { a }
            },
            IrExprOp::Select { accept, reject, .. } => {
                let a = component_count_exec(m, calls, &sibling(e, *accept), f);
                let b = component_count_exec(m, calls, &sibling(e, *reject), f);
                if a < b { b } else { a }
            },
            IrExprOp::Math { arg, arg1, arg2, arg3, .. } => {
                let mut count = component_count_exec(m, calls, &sibling(e, *arg), f);
                match arg1 {
                    Some(h) => {
                        let c = component_count_exec(m, calls, &sibling(e, *h), f);
                        count = if count < c { c } else { count };
                    },
                    None => {},
                }
                match arg2 {
                    Some(h) => {
                        let c = component_count_exec(m, calls, &sibling(e, *h), f);
                        count = if count < c { c } else { count };
                    },
                    None => {},
                }
                match arg3 {
                    Some(h) => {
                        let c = component_count_exec(m, calls, &sibling(e, *h), f);
                        count = if count < c { c } else { count };
                    },
                    None => {},
                }
                count
            },
            _ => match type_handle_for_expr(m, e) {
                Some(t) => type_component_count(m, t),
                None => 1,
            },
        },
        IrExprKind::Leaf { leaf: IrExprLeaf::CallResult(_), .. } => match call_result_component_count(m, calls, e) {
            Some(c) => c,
            None => 1,
        },
        _ => match type_handle_for_expr(m, e) {
            Some(t) => type_component_count(m, t),
            None => 1,
        },
    }
}

/// `expression_component_count`: how many vector components `e` carries;
/// `calls` are the calls recorded by the definition walk.
pub fn expression_component_count(m: &ShaderModule, calls: &Vec<CallDependency>, e: &ExprRef) -> (r: usize)
    ensures
        r == spec_component_count(*m, flow_calls(calls@), eview(*e)),
{
    let fuel = arena_len_exec(m, e);
    component_count_exec(m, calls, e, fuel)
}

// ---------------------------------------------------------------------------
// Reference labels
// ---------------------------------------------------------------------------

/// How an operand is referred to in the source: a named `let` by its name,
/// else the label of its access path.
pub open spec fn reference_label(
    m: ShaderModule,
    b: Seq<u8>,
    known: Seq<TargetSpec>,
    e: (Option<Seq<char>>, usize),
) -> Option<Seq<char>> {
    match named_target(m, e) {
        Some(nt) => target_name(known, nt),
        None => match spec_access_path(m, b, known, e, seq![]) {
            Some(p) => Some(p.display_label),
            None => None,
        },
    }
}

/// `reference_label_for_expr`.
pub fn reference_label_for_expr(
    m: &ShaderModule,
    source: &str,
    known: &Vec<PassDebugDependencyTarget>,
    e: &ExprRef,
) -> (r: Option<String>)
    ensures
        opt_string(r) == reference_label(*m, source.spec_bytes(), tviews(known@), eview(*e)),
{
    match named_expression_target_id(m, e) {
        Some(nt) => target_name_for_id(known, &nt),
        None => {
            let stack: Vec<String> = Vec::new();
            assert(strings_view(stack@) =~= Seq::<Seq<char>>::empty());
            match access_path_target(m, source, known, e, &stack) {
                Some(p) => Some(p.display_label),
                None => None,
            }
        },
    }
}

/// Where the value `value` of a definition is referred to on the line of
/// the definition `def_range`: after the defined name, else anywhere on
/// that line.
pub open spec fn value_occurrence_range(
    m: ShaderModule,
    b: Seq<u8>,
    known: Seq<TargetSpec>,
    def_range: PassDebugSourceRange,
    value: (Option<Seq<char>>, usize),
) -> Option<PassDebugSourceRange> {
    match reference_label(m, b, known, value) {
        None => None,
        Some(label) => match spec_line_range(b, def_range.start_byte as int) {
            None => None,
            Some(line) => {
                let rhs = min_int(def_range.end_byte as int, line.1);
                or_range(
                    spec_occurrence_range(b, encode_utf8(label), rhs, line.1, 0, false),
                    spec_occurrence_range(b, encode_utf8(label), line.0, line.1, 0, false),
                )
            },
        },
    }
}

/// `definition_value_occurrence_range`.
pub fn definition_value_occurrence_range(
    m: &ShaderModule,
    source: &str,
    known: &Vec<PassDebugDependencyTarget>,
    def_range: PassDebugSourceRange,
    value: &ExprRef,
) -> (r: Option<PassDebugSourceRange>)
    ensures
        r == value_occurrence_range(*m, source.spec_bytes(), tviews(known@), def_range, eview(*value)),
{
    let label = match reference_label_for_expr(m, source, known, value) {
        Some(l) => l,
        None => {
            return None;
        },
    };
    let line = match source_line_byte_range(source, def_range.start_byte) {
        Some(l) => l,
        None => {
            return None;
        },
    };
    let rhs = if def_range.end_byte < line.end {
        def_range.end_byte
    } else {
        line.end
    };
    match find_identifier_range(source, core::ops::Range { start: rhs, end: line.end }, label.as_str()) {
        Some(r) => Some(r),
        None => find_identifier_range(source, core::ops::Range { start: line.start, end: line.end }, label.as_str()),
    }
}

// ---------------------------------------------------------------------------
// Laws
// ---------------------------------------------------------------------------

pub open spec fn distinct_components(s: Seq<u32>) -> bool {
    forall|i: int, j: int| 0 <= i < j < s.len() ==> s[i] != s[j]
}

/// The target components an access path selects are each selected once.
pub proof fn lemma_access_path_projection_distinct(
    m: ShaderModule,
    b: Seq<u8>,
    known: Seq<TargetSpec>,
    e: (Option<Seq<char>>, usize),
    stack: Seq<Seq<char>>,
    fuel: nat,
)
    ensures
        match access_path(m, b, known, e, stack, fuel) {
            Some(p) => match p.projection {
                Some(q) => distinct_components(q),
                None => true,
            },
            None => true,
        },
    decreases fuel,
{
    if fuel > 0 {
        match expr_at(m, e) {
            None => {},
            Some(x) => match x.kind {
                IrExprKind::Operands { op } => match op {
                    IrExprOp::Load { pointer } => {
                        lemma_access_path_projection_distinct(m, b, known, (e.0, pointer), stack, (fuel - 1) as nat);
                    },
                    IrExprOp::Access { base, .. } => {
                        lemma_access_path_projection_distinct(m, b, known, (e.0, base), stack, (fuel - 1) as nat);
                    },
                    _ => {},
                },
                IrExprKind::Swizzle { size, vector, pattern } => {
                    let idx = swizzle_indices(size, pattern);
                    lemma_dedupe_laws(idx);
                    match access_path(m, b, known, (e.0, vector), stack, (fuel - 1) as nat) {
                        Some(p) => match p.projection {
                            Some(q) => {
                                lemma_dedupe_laws(pick(idx, q));
                            },
                            None => {},
                        },
                        None => {},
                    }
                },
                _ => {},
            },
        }
    }
}

/// The expression that a load, access or swizzle `x` reads from.
pub open spec fn read_base(x: IrExpression) -> Option<usize> {
    match x.kind {
        IrExprKind::Operands { op } => match op {
            IrExprOp::Load { pointer } => Some(pointer),
            IrExprOp::AccessIndex { base, .. } => Some(base),
            IrExprOp::Access { base, .. } => Some(base),
            _ => None,
        },
        IrExprKind::Swizzle { vector, .. } => Some(vector),
        _ => None,
    }
}

/// A load, access or swizzle that is not a named `let` taken as its own
/// path has an access path exactly when what it reads from has one; the
/// paths share their target, and the label of the outer one extends the
/// label of the inner one.
pub proof fn lemma_access_path_keeps_target(
    m: ShaderModule,
    b: Seq<u8>,
    known: Seq<TargetSpec>,
    e: (Option<Seq<char>>, usize),
    stack: Seq<Seq<char>>,
    fuel: nat,
)
    requires
        fuel > 0,
        expr_at(m, e) is Some,
        read_base(expr_at(m, e)->0) is Some,
        !(named_target(m, e) is Some && !stack.contains(named_target(m, e)->0) && use_named_path(
            known,
            e,
            expr_at(m, e)->0,
            named_target(m, e)->0,
        )),
    ensures
        ({
            let outer = access_path(m, b, known, e, stack, fuel);
            let inner = access_path(m, b, known, (e.0, read_base(expr_at(m, e)->0)->0), stack, (fuel - 1) as nat);
            &&& outer is Some <==> inner is Some
            &&& outer is Some ==> outer->0.target_id == inner->0.target_id
            &&& outer is Some ==> inner->0.display_label.is_prefix_of(outer->0.display_label)
        }),
{
    let x = expr_at(m, e)->0;
    let outer = access_path(m, b, known, e, stack, fuel);
    let inner = access_path(m, b, known, (e.0, read_base(x)->0), stack, (fuel - 1) as nat);
    if outer is Some {
        let q = inner->0.display_label;
        let p = outer->0.display_label;
        assert(p.subrange(0, q.len() as int) =~= q);
    }
}

} // verus!
