//! The dependency-target index of a module: every global, function argument,
//! local variable, named `let` and entry-point return whose contributors can
//! be inspected, with the source range that names it.
//!
//! Targets are collected in module order (globals, then each entry point's
//! and each function's arguments, locals and named expressions, then the
//! returns of fragment entry points and of all entry points), a target whose
//! id was already collected is skipped, and the list is finally ordered by
//! scope and then by name, keeping the collection order among equal keys.

use vstd::prelude::*;
use vstd::string::StringSliceAdditionalSpecFns;
use vstd::utf8::encode_utf8;

use super::ast::{
    function_scope, global_id, opt_view, scoped_id, spec_function_scope, spec_global_id, spec_scoped_id,
};
use super::ir::{
    IrArgument, IrExpression, IrFunction, IrGlobal, IrLocal, IrNamedExpression, IrSpan, IrStage,
    IrStatement, IrSwitchCase, ShaderModule,
};
use super::model::{PassDebugDependencyTarget, PassDebugSourceRange};
use super::source_mapping::{
    lemma_argument_range_selects_name, lemma_keyword_in_scope_selects_name,
    lemma_occurrence_range_selects_name, range_selects, find_argument_identifier_range, find_global_identifier_range, find_identifier_range,
    find_keyword_identifier_in_scope, source_range_from_byte_range, spec_argument_range,
    spec_keyword_in_scope, spec_occurrence_range, spec_source_range,
};
use crate::text::{concat, concat3, decimal, owned, spec_decimal};

verus! {

// ---------------------------------------------------------------------------
// Targets as values
// ---------------------------------------------------------------------------

/// The abstract value of a dependency target.
pub struct TargetSpec {
    pub id: Seq<char>,
    pub name: Seq<char>,
    pub label: Seq<char>,
    pub scope: Seq<char>,
    pub kind: Seq<char>,
    pub source_range: Option<PassDebugSourceRange>,
}

pub open spec fn tview(t: PassDebugDependencyTarget) -> TargetSpec {
    TargetSpec {
        id: t.id@,
        name: t.name@,
        label: t.label@,
        scope: t.scope@,
        kind: t.kind@,
        source_range: t.source_range,
    }
}

pub open spec fn tviews(ts: Seq<PassDebugDependencyTarget>) -> Seq<TargetSpec> {
    ts.map_values(|t: PassDebugDependencyTarget| tview(t))
}

pub open spec fn or_else(a: Option<PassDebugSourceRange>, b: Option<PassDebugSourceRange>) -> Option<
    PassDebugSourceRange,
> {
    match a {
        Some(r) => Some(r),
        None => b,
    }
}

/// `name`, or `prefix` followed by the index `i` for an unnamed item.
pub open spec fn spec_name_or_index(name: Option<String>, prefix: Seq<char>, i: nat) -> Seq<char> {
    match name {
        Some(n) => n@,
        None => prefix + spec_decimal(i),
    }
}

pub fn name_or_index(name: &Option<String>, prefix: &str, i: usize) -> (r: String)
    ensures
        r@ == spec_name_or_index(*name, prefix@, i as nat),
{
    match name {
        Some(n) => n.clone(),
        None => {
            let d = decimal(i);
            concat(prefix, d.as_str())
        },
    }
}

/// The occurrence of `name` inside the byte range of `span`, if any.
pub open spec fn span_occurrence(b: Seq<u8>, span: Option<IrSpan>, name: Seq<char>) -> Option<
    PassDebugSourceRange,
> {
    match span {
        Some(s) => spec_occurrence_range(b, encode_utf8(name), s.start as int, s.end as int, 0, false),
        None => None,
    }
}

fn span_occurrence_exec(source: &str, span: Option<IrSpan>, name: &str) -> (r: Option<PassDebugSourceRange>)
    ensures
        r == span_occurrence(source.spec_bytes(), span, name@),
{
    match span {
        Some(s) => find_identifier_range(source, core::ops::Range { start: s.start, end: s.end }, name),
        None => None,
    }
}

// ---------------------------------------------------------------------------
// One target per item
// ---------------------------------------------------------------------------

pub open spec fn spec_global_target(b: Seq<u8>, i: nat, g: IrGlobal) -> TargetSpec {
    let name = spec_name_or_index(g.name, "global_"@, i);
    TargetSpec {
        id: spec_global_id(i),
        name,
        label: "global "@ + name,
        scope: "module"@,
        kind: "global"@,
        source_range: or_else(
            span_occurrence(b, g.span, name),
            spec_occurrence_range(b, encode_utf8(name), 0, b.len() as int, 0, false),
        ),
    }
}

pub open spec fn spec_argument_target(b: Seq<u8>, scope: Seq<char>, i: nat, a: IrArgument) -> TargetSpec {
    let name = spec_name_or_index(a.name, "arg_"@, i);
    TargetSpec {
        id: spec_scoped_id(scope, "arg"@, i),
        name,
        label: scope + " argument "@ + name,
        scope,
        kind: "argument"@,
        source_range: spec_argument_range(b, encode_utf8(scope), encode_utf8(name)),
    }
}

pub open spec fn spec_local_target(b: Seq<u8>, scope: Seq<char>, h: nat, l: IrLocal) -> TargetSpec {
    let name = spec_name_or_index(l.name, "local_"@, h);
    TargetSpec {
        id: spec_scoped_id(scope, "local"@, h),
        name,
        label: scope + " local "@ + name,
        scope,
        kind: "local"@,
        source_range: or_else(
            span_occurrence(b, l.span, name),
            spec_keyword_in_scope(b, encode_utf8(scope), encode_utf8("var"@), encode_utf8(name)),
        ),
    }
}

/// The source range of expression `h` of `exprs`, when it has a span.
pub open spec fn expr_span_range(b: Seq<u8>, exprs: Seq<IrExpression>, h: nat) -> Option<PassDebugSourceRange> {
    if h < exprs.len() {
        match exprs[h as int].span {
            Some(s) => spec_source_range(b, s.start as int, s.end as int),
            None => None,
        }
    } else {
        None
    }
}

pub open spec fn spec_let_target(
    b: Seq<u8>,
    scope: Seq<char>,
    exprs: Seq<IrExpression>,
    ne: IrNamedExpression,
) -> TargetSpec {
    let name = ne.name@;
    TargetSpec {
        id: spec_scoped_id(scope, "expr"@, ne.handle as nat),
        name,
        label: scope + " let "@ + name,
        scope,
        kind: "let"@,
        source_range: or_else(
            spec_keyword_in_scope(b, encode_utf8(scope), encode_utf8("let"@), encode_utf8(name)),
            expr_span_range(b, exprs, ne.handle as nat),
        ),
    }
}

/// `<scope>::return`.
pub open spec fn spec_return_id(scope: Seq<char>) -> Seq<char> {
    scope + "::return"@
}

pub open spec fn spec_return_target(scope: Seq<char>) -> TargetSpec {
    TargetSpec {
        id: spec_return_id(scope),
        name: "return"@,
        label: scope + " return"@,
        scope,
        kind: "return"@,
        source_range: None,
    }
}

pub fn global_target(source: &str, i: usize, g: &IrGlobal) -> (r: PassDebugDependencyTarget)
    ensures
        tview(r) == spec_global_target(source.spec_bytes(), i as nat, *g),
{
    let name = name_or_index(&g.name, "global_", i);
    let range = match span_occurrence_exec(source, g.span, name.as_str()) {
        Some(r) => Some(r),
        None => find_global_identifier_range(source, name.as_str()),
    };
    let label = concat("global ", name.as_str());
    PassDebugDependencyTarget {
        id: global_id(i),
        name,
        label,
        scope: owned("module"),
        kind: owned("global"),
        source_range: range,
    }
}

pub fn argument_target(source: &str, scope: &str, i: usize, a: &IrArgument) -> (r: PassDebugDependencyTarget)
    ensures
        tview(r) == spec_argument_target(source.spec_bytes(), scope@, i as nat, *a),
{
    let name = name_or_index(&a.name, "arg_", i);
    let range = find_argument_identifier_range(source, scope, name.as_str());
    let label = concat3(scope, " argument ", name.as_str());
    PassDebugDependencyTarget {
        id: scoped_id(scope, "arg", i),
        name,
        label,
        scope: owned(scope),
        kind: owned("argument"),
        source_range: range,
    }
}

pub fn local_target(source: &str, scope: &str, h: usize, l: &IrLocal) -> (r: PassDebugDependencyTarget)
    ensures
        tview(r) == spec_local_target(source.spec_bytes(), scope@, h as nat, *l),
{
    let name = name_or_index(&l.name, "local_", h);
    let range = match span_occurrence_exec(source, l.span, name.as_str()) {
        Some(r) => Some(r),
        None => find_keyword_identifier_in_scope(source, scope, "var", name.as_str()),
    };
    let label = concat3(scope, " local ", name.as_str());
    PassDebugDependencyTarget {
        id: scoped_id(scope, "local", h),
        name,
        label,
        scope: owned(scope),
        kind: owned("local"),
        source_range: range,
    }
}

pub fn let_target(source: &str, scope: &str, exprs: &Vec<IrExpression>, ne: &IrNamedExpression) -> (r:
    PassDebugDependencyTarget)
    ensures
        tview(r) == spec_let_target(source.spec_bytes(), scope@, exprs@, *ne),
{
    let found = find_keyword_identifier_in_scope(source, scope, "let", ne.name.as_str());
    let range = match found {
        Some(r) => Some(r),
        None => if ne.handle < exprs.len() {
            match exprs[ne.handle].span {
                Some(s) => source_range_from_byte_range(source, core::ops::Range { start: s.start, end: s.end }),
                None => None,
            }
        } else {
            None
        },
    };
    let label = concat3(scope, " let ", ne.name.as_str());
    PassDebugDependencyTarget {
        id: scoped_id(scope, "expr", ne.handle),
        name: ne.name.clone(),
        label,
        scope: owned(scope),
        kind: owned("let"),
        source_range: range,
    }
}

pub fn return_id(scope: &str) -> (r: String)
    ensures
        r@ == spec_return_id(scope@),
{
    concat(scope, "::return")
}

pub fn return_target(scope: &str) -> (r: PassDebugDependencyTarget)
    ensures
        tview(r) == spec_return_target(scope@),
{
    PassDebugDependencyTarget {
        id: return_id(scope),
        name: owned("return"),
        label: concat(scope, " return"),
        scope: owned(scope),
        kind: owned("return"),
        source_range: None,
    }
}


// ---------------------------------------------------------------------------
// Returns
// ---------------------------------------------------------------------------

/// The statement is a `return` or holds one in a nested block.
pub open spec fn stmt_has_return(s: IrStatement) -> bool
    decreases s, 1int,
{
    match s {
        IrStatement::Return { .. } => true,
        IrStatement::Block { body } => block_has_return(body@, body@.len() as int),
        IrStatement::If { accept, reject, .. } => block_has_return(accept@, accept@.len() as int)
            || block_has_return(reject@, reject@.len() as int),
        IrStatement::Switch { cases, .. } => cases_have_return(cases@, cases@.len() as int),
        IrStatement::Loop { body, continuing, .. } => block_has_return(body@, body@.len() as int)
            || block_has_return(continuing@, continuing@.len() as int),
        _ => false,
    }
}

/// One of the first `k` statements of `b` holds a `return`.
pub open spec fn block_has_return(b: Seq<IrStatement>, k: int) -> bool
    decreases b, 0int, k,
{
    if k <= 0 {
        false
    } else {
        block_has_return(b, k - 1) || (k - 1 < b.len() && stmt_has_return(b[k - 1]))
    }
}

/// The body of one of the first `k` cases holds a `return`.
pub open spec fn cases_have_return(cs: Seq<IrSwitchCase>, k: int) -> bool
    decreases cs, 0int, k,
{
    if k <= 0 {
        false
    } else {
        cases_have_return(cs, k - 1) || (k - 1 < cs.len() && block_has_return(
            cs[k - 1].body@,
            cs[k - 1].body@.len() as int,
        ))
    }
}

pub open spec fn function_returns(f: IrFunction) -> bool {
    block_has_return(f.body@, f.body@.len() as int)
}

/// Some entry point or function of scope `scope` has a `return` statement.
pub open spec fn scope_returns(m: ShaderModule, scope: Seq<char>) -> bool {
    ||| exists|i: int|
        0 <= i < m.entry_points@.len() && m.entry_points@[i].name@ == scope && #[trigger] function_returns(
            m.entry_points@[i].function,
        )
    ||| exists|i: int|
        0 <= i < m.functions@.len() && spec_function_scope(i as nat, m.functions@[i].name) == scope
            && #[trigger] function_returns(m.functions@[i])
}

pub fn stmt_has_return_exec(s: &IrStatement) -> (r: bool)
    ensures
        r == stmt_has_return(*s),
    decreases *s, 1int,
{
    match s {
        IrStatement::Return { .. } => true,
        IrStatement::Block { body } => block_has_return_exec(body),
        IrStatement::If { accept, reject, .. } => block_has_return_exec(accept) || block_has_return_exec(
            reject,
        ),
        IrStatement::Switch { cases, .. } => cases_have_return_exec(cases),
        IrStatement::Loop { body, continuing, .. } => block_has_return_exec(body) || block_has_return_exec(
            continuing,
        ),
        _ => false,
    }
}

pub fn block_has_return_exec(b: &Vec<IrStatement>) -> (r: bool)
    ensures
        r == block_has_return(b@, b@.len() as int),
    decreases b@, 0int,
{
    let mut i: usize = 0;
    while i < b.len()
        invariant
            i <= b@.len(),
            !block_has_return(b@, i as int),
        decreases b@.len() - i,
    {
        if stmt_has_return_exec(&b[i]) {
            proof {
                lemma_block_return_monotone(b@, i as int + 1, b@.len() as int);
            }
            return true;
        }
        i = i + 1;
    }
    false
}

pub fn cases_have_return_exec(cs: &Vec<IrSwitchCase>) -> (r: bool)
    ensures
        r == cases_have_return(cs@, cs@.len() as int),
    decreases cs@, 0int,
{
    let mut i: usize = 0;
    while i < cs.len()
        invariant
            i <= cs@.len(),
            !cases_have_return(cs@, i as int),
        decreases cs@.len() - i,
    {
        if block_has_return_exec(&cs[i].body) {
            proof {
                lemma_cases_return_monotone(cs@, i as int + 1, cs@.len() as int);
            }
            return true;
        }
        i = i + 1;
    }
    false
}

proof fn lemma_block_return_monotone(b: Seq<IrStatement>, j: int, k: int)
    requires
        j <= k,
        block_has_return(b, j),
    ensures
        block_has_return(b, k),
    decreases k - j,
{
    if j < k {
        lemma_block_return_monotone(b, j, k - 1);
    }
}

proof fn lemma_cases_return_monotone(cs: Seq<IrSwitchCase>, j: int, k: int)
    requires
        j <= k,
        cases_have_return(cs, j),
    ensures
        cases_have_return(cs, k),
    decreases k - j,
{
    if j < k {
        lemma_cases_return_monotone(cs, j, k - 1);
    }
}

pub fn scope_returns_exec(m: &ShaderModule, scope: &str) -> (r: bool)
    ensures
        r == scope_returns(*m, scope@),
{
    let wanted = owned(scope);
    let mut i: usize = 0;
    while i < m.entry_points.len()
        invariant
            wanted@ == scope@,
            i <= m.entry_points@.len(),
            forall|j: int|
                0 <= j < i ==> !(m.entry_points@[j].name@ == scope@ && #[trigger] function_returns(
                    m.entry_points@[j].function,
                )),
        decreases m.entry_points@.len() - i,
    {
        let e = &m.entry_points[i];
        if e.name == wanted && block_has_return_exec(&e.function.body) {
            assert(function_returns(m.entry_points@[i as int].function));
            return true;
        }
        i = i + 1;
    }
    let mut i: usize = 0;
    while i < m.functions.len()
        invariant
            wanted@ == scope@,
            i <= m.functions@.len(),
            forall|j: int|
                0 <= j < m.entry_points@.len() ==> !(m.entry_points@[j].name@ == scope@
                    && #[trigger] function_returns(m.entry_points@[j].function)),
            forall|j: int|
                0 <= j < i ==> !(spec_function_scope(j as nat, m.functions@[j].name) == scope@
                    && #[trigger] function_returns(m.functions@[j])),
        decreases m.functions@.len() - i,
    {
        let f = &m.functions[i];
        let fs = function_scope(i, &f.name);
        if fs == wanted && block_has_return_exec(&f.body) {
            assert(function_returns(m.functions@[i as int]));
            return true;
        }
        i = i + 1;
    }
    false
}


// ---------------------------------------------------------------------------
// Collection
// ---------------------------------------------------------------------------

/// The targets of one function, in order: arguments, locals, named
/// expressions.
pub open spec fn spec_function_targets(b: Seq<u8>, scope: Seq<char>, f: IrFunction) -> Seq<TargetSpec> {
    Seq::new(f.arguments@.len(), |i: int| spec_argument_target(b, scope, i as nat, f.arguments@[i]))
        + Seq::new(f.locals@.len(), |h: int| spec_local_target(b, scope, h as nat, f.locals@[h]))
        + Seq::new(
        f.named_expressions@.len(),
        |j: int| spec_let_target(b, scope, f.expressions@, f.named_expressions@[j]),
    )
}

pub open spec fn spec_globals_targets(b: Seq<u8>, m: ShaderModule) -> Seq<TargetSpec> {
    Seq::new(m.globals@.len(), |i: int| spec_global_target(b, i as nat, m.globals@[i]))
}

/// The targets of the first `k` entry points.
pub open spec fn spec_entries_targets(b: Seq<u8>, m: ShaderModule, k: int) -> Seq<TargetSpec>
    decreases k,
{
    if k <= 0 {
        seq![]
    } else {
        spec_entries_targets(b, m, k - 1) + spec_function_targets(
            b,
            m.entry_points@[k - 1].name@,
            m.entry_points@[k - 1].function,
        )
    }
}

/// The targets of the first `k` functions.
pub open spec fn spec_functions_targets(b: Seq<u8>, m: ShaderModule, k: int) -> Seq<TargetSpec>
    decreases k,
{
    if k <= 0 {
        seq![]
    } else {
        spec_functions_targets(b, m, k - 1) + spec_function_targets(
            b,
            spec_function_scope((k - 1) as nat, m.functions@[k - 1].name),
            m.functions@[k - 1],
        )
    }
}

/// The scopes of the fragment entry points among the first `k`, in order.
pub open spec fn spec_fragment_scopes(m: ShaderModule, k: int) -> Seq<Seq<char>>
    decreases k,
{
    if k <= 0 {
        seq![]
    } else if m.entry_points@[k - 1].stage == IrStage::Fragment {
        spec_fragment_scopes(m, k - 1).push(m.entry_points@[k - 1].name@)
    } else {
        spec_fragment_scopes(m, k - 1)
    }
}

pub open spec fn spec_entry_scopes(m: ShaderModule) -> Seq<Seq<char>> {
    Seq::new(m.entry_points@.len(), |i: int| m.entry_points@[i].name@)
}

/// The scopes whose return is a target candidate: fragment entry points
/// first, then all entry points.
pub open spec fn spec_return_scopes(m: ShaderModule) -> Seq<Seq<char>> {
    spec_fragment_scopes(m, m.entry_points@.len() as int) + spec_entry_scopes(m)
}

/// The return targets of the first `k` of `scopes` that have a `return`.
pub open spec fn spec_return_targets(m: ShaderModule, scopes: Seq<Seq<char>>, k: int) -> Seq<TargetSpec>
    decreases k,
{
    if k <= 0 {
        seq![]
    } else if scope_returns(m, scopes[k - 1]) {
        spec_return_targets(m, scopes, k - 1).push(spec_return_target(scopes[k - 1]))
    } else {
        spec_return_targets(m, scopes, k - 1)
    }
}

/// Every candidate target, in collection order.
pub open spec fn spec_candidates(b: Seq<u8>, m: ShaderModule) -> Seq<TargetSpec> {
    spec_globals_targets(b, m) + spec_entries_targets(b, m, m.entry_points@.len() as int)
        + spec_functions_targets(b, m, m.functions@.len() as int) + spec_return_targets(
        m,
        spec_return_scopes(m),
        spec_return_scopes(m).len() as int,
    )
}

pub open spec fn target_ids(ts: Seq<TargetSpec>) -> Seq<Seq<char>> {
    ts.map_values(|t: TargetSpec| t.id)
}

/// The candidates `cs` with every candidate whose id was seen before left out.
pub open spec fn dedup_targets(cs: Seq<TargetSpec>) -> Seq<TargetSpec>
    decreases cs.len(),
{
    if cs.len() == 0 {
        seq![]
    } else {
        let prev = dedup_targets(cs.drop_last());
        if target_ids(prev).contains(cs.last().id) {
            prev
        } else {
            prev.push(cs.last())
        }
    }
}

/// Appends `t` unless a target with its id is already there.
pub(crate) fn push_unique(
    targets: &mut Vec<PassDebugDependencyTarget>,
    t: PassDebugDependencyTarget,
    Ghost(cs): Ghost<Seq<TargetSpec>>,
)
    requires
        tviews(old(targets)@) == dedup_targets(cs),
    ensures
        tviews(final(targets)@) == dedup_targets(cs.push(tview(t))),
{
    assert(cs.push(tview(t)).drop_last() =~= cs);
    let ghost prev = dedup_targets(cs);
    let mut i: usize = 0;
    while i < targets.len()
        invariant
            i <= targets@.len(),
            tviews(targets@) == prev,
            prev == dedup_targets(cs),
            forall|j: int| 0 <= j < i ==> targets@[j].id@ != t.id@,
        decreases targets@.len() - i,
    {
        if targets[i].id == t.id {
            assert(target_ids(prev)[i as int] == t.id@);
            assert(target_ids(prev).contains(tview(t).id));
            assert(cs.push(tview(t)).drop_last() =~= cs);
            return;
        }
        i = i + 1;
    }
    proof {
        if target_ids(prev).contains(t.id@) {
            let j = choose|j: int| 0 <= j < target_ids(prev).len() && target_ids(prev)[j] == t.id@;
            assert(targets@[j].id@ == t.id@);
        }
    }
    assert(!target_ids(prev).contains(tview(t).id));
    assert(dedup_targets(cs.push(tview(t))) == prev.push(tview(t)));
    targets.push(t);
    assert(tviews(targets@) =~= prev.push(tview(t)));
}

/// Collects the targets of one function of scope `scope`.
pub(crate) fn collect_function_targets(
    targets: &mut Vec<PassDebugDependencyTarget>,
    Ghost(cs): Ghost<Seq<TargetSpec>>,
    source: &str,
    scope: &str,
    f: &IrFunction,
)
    requires
        tviews(old(targets)@) == dedup_targets(cs),
    ensures
        tviews(final(targets)@) == dedup_targets(cs + spec_function_targets(source.spec_bytes(), scope@, *f)),
{
    let ghost b = source.spec_bytes();
    let ghost args = Seq::new(f.arguments@.len(), |i: int| spec_argument_target(b, scope@, i as nat, f.arguments@[i]));
    let ghost locals = Seq::new(f.locals@.len(), |h: int| spec_local_target(b, scope@, h as nat, f.locals@[h]));
    let ghost lets = Seq::new(
        f.named_expressions@.len(),
        |j: int| spec_let_target(b, scope@, f.expressions@, f.named_expressions@[j]),
    );
    let ghost mut cur = cs;
    let mut i: usize = 0;
    while i < f.arguments.len()
        invariant
            b == source.spec_bytes(),
            args == Seq::new(f.arguments@.len(), |i: int| spec_argument_target(b, scope@, i as nat, f.arguments@[i])),
            i <= f.arguments@.len(),
            cur == cs + args.take(i as int),
            tviews(targets@) == dedup_targets(cur),
        decreases f.arguments@.len() - i,
    {
        let t = argument_target(source, scope, i, &f.arguments[i]);
        push_unique(targets, t, Ghost(cur));
        proof {
            cur = cur.push(tview(t));
            assert(cur =~= cs + args.take(i + 1));
        }
        i = i + 1;
    }
    assert(args.take(i as int) =~= args);
    let mut h: usize = 0;
    while h < f.locals.len()
        invariant
            b == source.spec_bytes(),
            locals == Seq::new(f.locals@.len(), |h: int| spec_local_target(b, scope@, h as nat, f.locals@[h])),
            h <= f.locals@.len(),
            cur == cs + args + locals.take(h as int),
            tviews(targets@) == dedup_targets(cur),
        decreases f.locals@.len() - h,
    {
        let t = local_target(source, scope, h, &f.locals[h]);
        push_unique(targets, t, Ghost(cur));
        proof {
            cur = cur.push(tview(t));
            assert(cur =~= cs + args + locals.take(h + 1));
        }
        h = h + 1;
    }
    assert(locals.take(h as int) =~= locals);
    let mut j: usize = 0;
    while j < f.named_expressions.len()
        invariant
            b == source.spec_bytes(),
            lets == Seq::new(
                f.named_expressions@.len(),
                |j: int| spec_let_target(b, scope@, f.expressions@, f.named_expressions@[j]),
            ),
            j <= f.named_expressions@.len(),
            cur == cs + args + locals + lets.take(j as int),
            tviews(targets@) == dedup_targets(cur),
        decreases f.named_expressions@.len() - j,
    {
        let t = let_target(source, scope, &f.expressions, &f.named_expressions[j]);
        push_unique(targets, t, Ghost(cur));
        proof {
            cur = cur.push(tview(t));
            assert(cur =~= cs + args + locals + lets.take(j + 1));
        }
        j = j + 1;
    }
    assert(lets.take(j as int) =~= lets);
    assert(cs + args + locals + lets =~= cs + spec_function_targets(b, scope@, *f));
}

pub fn fragment_scopes(m: &ShaderModule) -> (r: Vec<String>)
    ensures
        r@.map_values(|s: String| s@) == spec_fragment_scopes(*m, m.entry_points@.len() as int),
{
    let mut r: Vec<String> = Vec::new();
    let mut i: usize = 0;
    while i < m.entry_points.len()
        invariant
            i <= m.entry_points@.len(),
            r@.map_values(|s: String| s@) == spec_fragment_scopes(*m, i as int),
        decreases m.entry_points@.len() - i,
    {
        let e = &m.entry_points[i];
        if e.stage == IrStage::Fragment {
            r.push(e.name.clone());
            assert(r@.map_values(|s: String| s@) =~= spec_fragment_scopes(*m, i as int).push(e.name@));
        }
        i = i + 1;
    }
    r
}

pub fn return_scopes(m: &ShaderModule) -> (r: Vec<String>)
    ensures
        r@.map_values(|s: String| s@) == spec_return_scopes(*m),
{
    let mut r = fragment_scopes(m);
    let ghost front = spec_fragment_scopes(*m, m.entry_points@.len() as int);
    let mut i: usize = 0;
    while i < m.entry_points.len()
        invariant
            i <= m.entry_points@.len(),
            r@.map_values(|s: String| s@) == front + spec_entry_scopes(*m).take(i as int),
        decreases m.entry_points@.len() - i,
    {
        let ghost before = r@;
        let name = m.entry_points[i].name.clone();
        r.push(name);
        assert(r@ == before.push(name));
        assert(r@.map_values(|s: String| s@) =~= before.map_values(|s: String| s@).push(name@));
        assert(spec_entry_scopes(*m).take(i + 1) =~= spec_entry_scopes(*m).take(i as int).push(name@));
        assert(r@.map_values(|s: String| s@) =~= front + spec_entry_scopes(*m).take(i + 1));
        i = i + 1;
    }
    assert(spec_entry_scopes(*m).take(i as int) =~= spec_entry_scopes(*m));
    r
}

/// Every target of the module in collection order, each id once.
pub fn collect_targets(m: &ShaderModule, source: &str) -> (r: Vec<PassDebugDependencyTarget>)
    ensures
        tviews(r@) == dedup_targets(spec_candidates(source.spec_bytes(), *m)),
{
    let ghost b = source.spec_bytes();
    let mut targets: Vec<PassDebugDependencyTarget> = Vec::new();
    let ghost globals = spec_globals_targets(b, *m);
    let ghost mut cur: Seq<TargetSpec> = seq![];
    assert(tviews(targets@) =~= dedup_targets(cur));
    let mut i: usize = 0;
    while i < m.globals.len()
        invariant
            b == source.spec_bytes(),
            globals == spec_globals_targets(b, *m),
            i <= m.globals@.len(),
            cur == globals.take(i as int),
            tviews(targets@) == dedup_targets(cur),
        decreases m.globals@.len() - i,
    {
        let t = global_target(source, i, &m.globals[i]);
        push_unique(&mut targets, t, Ghost(cur));
        proof {
            cur = cur.push(tview(t));
            assert(cur =~= globals.take(i + 1));
        }
        i = i + 1;
    }
    assert(globals.take(i as int) =~= globals);
    let mut i: usize = 0;
    while i < m.entry_points.len()
        invariant
            b == source.spec_bytes(),
            globals == spec_globals_targets(b, *m),
            i <= m.entry_points@.len(),
            cur == globals + spec_entries_targets(b, *m, i as int),
            tviews(targets@) == dedup_targets(cur),
        decreases m.entry_points@.len() - i,
    {
        let e = &m.entry_points[i];
        collect_function_targets(&mut targets, Ghost(cur), source, e.name.as_str(), &e.function);
        proof {
            cur = cur + spec_function_targets(b, e.name@, e.function);
            assert(cur =~= globals + spec_entries_targets(b, *m, i + 1));
        }
        i = i + 1;
    }
    let ghost entries = spec_entries_targets(b, *m, m.entry_points@.len() as int);
    let mut i: usize = 0;
    while i < m.functions.len()
        invariant
            b == source.spec_bytes(),
            globals == spec_globals_targets(b, *m),
            entries == spec_entries_targets(b, *m, m.entry_points@.len() as int),
            i <= m.functions@.len(),
            cur == globals + entries + spec_functions_targets(b, *m, i as int),
            tviews(targets@) == dedup_targets(cur),
        decreases m.functions@.len() - i,
    {
        let f = &m.functions[i];
        let scope = function_scope(i, &f.name);
        collect_function_targets(&mut targets, Ghost(cur), source, scope.as_str(), f);
        proof {
            cur = cur + spec_function_targets(b, scope@, *f);
            assert(cur =~= globals + entries + spec_functions_targets(b, *m, i + 1));
        }
        i = i + 1;
    }
    let ghost funcs = spec_functions_targets(b, *m, m.functions@.len() as int);
    let scopes = return_scopes(m);
    let ghost sv = spec_return_scopes(*m);
    let mut k: usize = 0;
    while k < scopes.len()
        invariant
            b == source.spec_bytes(),
            globals == spec_globals_targets(b, *m),
            entries == spec_entries_targets(b, *m, m.entry_points@.len() as int),
            funcs == spec_functions_targets(b, *m, m.functions@.len() as int),
            sv == spec_return_scopes(*m),
            scopes@.map_values(|s: String| s@) == sv,
            k <= scopes@.len(),
            cur == globals + entries + funcs + spec_return_targets(*m, sv, k as int),
            tviews(targets@) == dedup_targets(cur),
        decreases scopes@.len() - k,
    {
        assert(sv[k as int] == scopes@[k as int]@);
        if scope_returns_exec(m, scopes[k].as_str()) {
            let t = return_target(scopes[k].as_str());
            push_unique(&mut targets, t, Ghost(cur));
            proof {
                cur = cur.push(tview(t));
                assert(cur =~= globals + entries + funcs + spec_return_targets(*m, sv, k + 1));
            }
        }
        k = k + 1;
    }
    assert(cur =~= spec_candidates(b, *m));
    targets
}


// ---------------------------------------------------------------------------
// Order
// ---------------------------------------------------------------------------

/// `a` comes before `b` in the lexicographic order of byte strings (the
/// order of `str`).
pub open spec fn bytes_lt(a: Seq<u8>, b: Seq<u8>) -> bool
    decreases a.len(),
{
    if a.len() == 0 {
        b.len() > 0
    } else if b.len() == 0 {
        false
    } else if a[0] != b[0] {
        a[0] < b[0]
    } else {
        bytes_lt(a.drop_first(), b.drop_first())
    }
}

/// Targets are ordered by scope, then by name.
pub open spec fn target_lt(a: TargetSpec, b: TargetSpec) -> bool {
    let (sa, sb) = (encode_utf8(a.scope), encode_utf8(b.scope));
    bytes_lt(sa, sb) || (sa == sb && bytes_lt(encode_utf8(a.name), encode_utf8(b.name)))
}

/// Where `x` goes in `s`: after every element that does not come after it.
pub open spec fn insert_pos(s: Seq<TargetSpec>, x: TargetSpec) -> nat
    decreases s.len(),
{
    if s.len() == 0 {
        0
    } else if target_lt(x, s.last()) {
        insert_pos(s.drop_last(), x)
    } else {
        s.len()
    }
}

/// `s` ordered by scope and name, keeping the order of `s` among targets
/// with equal scope and name.
pub open spec fn sorted_targets(s: Seq<TargetSpec>) -> Seq<TargetSpec>
    decreases s.len(),
{
    if s.len() == 0 {
        s
    } else {
        let prev = sorted_targets(s.drop_last());
        prev.insert(insert_pos(prev, s.last()) as int, s.last())
    }
}

pub fn bytes_less(a: &[u8], b: &[u8]) -> (r: bool)
    ensures
        r == bytes_lt(a@, b@),
{
    let mut i: usize = 0;
    assert(a@.skip(0) =~= a@);
    assert(b@.skip(0) =~= b@);
    while i < a.len() && i < b.len()
        invariant
            i <= a@.len(),
            i <= b@.len(),
            bytes_lt(a@, b@) == bytes_lt(a@.skip(i as int), b@.skip(i as int)),
        decreases a@.len() - i,
    {
        if a[i] != b[i] {
            return a[i] < b[i];
        }
        assert(a@.skip(i as int).drop_first() =~= a@.skip(i + 1));
        assert(b@.skip(i as int).drop_first() =~= b@.skip(i + 1));
        i = i + 1;
    }
    i == a.len() && i < b.len()
}

pub fn bytes_same(a: &[u8], b: &[u8]) -> (r: bool)
    ensures
        r == (a@ == b@),
{
    if a.len() != b.len() {
        return false;
    }
    let mut i: usize = 0;
    while i < a.len()
        invariant
            a@.len() == b@.len(),
            i <= a@.len(),
            forall|j: int| 0 <= j < i ==> a@[j] == b@[j],
        decreases a@.len() - i,
    {
        if a[i] != b[i] {
            return false;
        }
        i = i + 1;
    }
    assert(a@ =~= b@);
    true
}

pub fn target_before(a: &PassDebugDependencyTarget, b: &PassDebugDependencyTarget) -> (r: bool)
    ensures
        r == target_lt(tview(*a), tview(*b)),
{
    let sa = a.scope.as_str().as_bytes();
    let sb = b.scope.as_str().as_bytes();
    if bytes_less(sa, sb) {
        return true;
    }
    bytes_same(sa, sb) && bytes_less(a.name.as_str().as_bytes(), b.name.as_str().as_bytes())
}

proof fn lemma_insert_pos_suffix(s: Seq<TargetSpec>, x: TargetSpec, j: int)
    requires
        0 <= j <= s.len(),
        forall|q: int| j <= q < s.len() ==> target_lt(x, #[trigger] s[q]),
    ensures
        insert_pos(s, x) == insert_pos(s.take(j), x),
    decreases s.len() - j,
{
    if j == s.len() {
        assert(s.take(j) =~= s);
    } else {
        assert(target_lt(x, s[s.len() - 1]));
        lemma_insert_pos_suffix(s.drop_last(), x, j);
        assert(s.drop_last().take(j) =~= s.take(j));
    }
}

/// The targets ordered by scope and then name; targets with equal scope and
/// name keep their relative order.
pub fn sort_targets(v: Vec<PassDebugDependencyTarget>) -> (r: Vec<PassDebugDependencyTarget>)
    ensures
        tviews(r@) == sorted_targets(tviews(v@)),
{
    let ghost orig = tviews(v@);
    let mut src = v;
    let mut out: Vec<PassDebugDependencyTarget> = Vec::new();
    let ghost mut k: int = 0;
    assert(orig.skip(0) =~= orig);
    assert(orig.take(0) =~= seq![]);
    while src.len() > 0
        invariant
            0 <= k <= orig.len(),
            tviews(src@) == orig.skip(k),
            tviews(out@) == sorted_targets(orig.take(k)),
        decreases src@.len(),
    {
        let ghost sorted_before = tviews(out@);
        let ghost src_before = src@;
        assert(tviews(src_before).len() == src_before.len());
        assert(k < orig.len());
        assert(tviews(src_before)[0] == orig[k]);
        let x = src.remove(0);
        assert(src@ =~= src_before.subrange(1, src_before.len() as int));
        assert(tviews(src@) =~= orig.skip(k + 1)) by {
            assert forall|i: int| 0 <= i < tviews(src@).len() implies tviews(src@)[i] == orig.skip(k + 1)[i] by {
                assert(tviews(src_before)[i + 1] == orig.skip(k)[i + 1]);
            }
        }
        let ghost xv = tview(x);
        assert(xv == orig[k]);
        let mut j: usize = out.len();
        while j > 0 && target_before(&x, &out[j - 1])
            invariant
                j <= out@.len(),
                tviews(out@) == sorted_before,
                xv == tview(x),
                forall|q: int| j <= q < sorted_before.len() ==> target_lt(xv, #[trigger] sorted_before[q]),
            decreases j,
        {
            j = j - 1;
        }
        proof {
            lemma_insert_pos_suffix(sorted_before, xv, j as int);
            if j > 0 {
                assert(sorted_before.take(j as int).last() == sorted_before[j - 1]);
            }
            assert(insert_pos(sorted_before.take(j as int), xv) == j);
            assert(orig.take(k + 1).drop_last() =~= orig.take(k));
            assert(orig.take(k + 1).last() == xv);
        }
        out.insert(j, x);
        assert(tviews(out@) =~= sorted_before.insert(j as int, xv));
        proof {
            k = k + 1;
        }
    }
    assert(orig.take(k) =~= orig);
    out
}

// ---------------------------------------------------------------------------
// The index
// ---------------------------------------------------------------------------

/// The return id of the first of `scopes` whose return is among `ids`.
pub open spec fn first_return_in(scopes: Seq<Seq<char>>, ids: Seq<Seq<char>>) -> Option<Seq<char>>
    decreases scopes.len(),
{
    if scopes.len() == 0 {
        None
    } else if ids.contains(spec_return_id(scopes[0])) {
        Some(spec_return_id(scopes[0]))
    } else {
        first_return_in(scopes.drop_first(), ids)
    }
}

/// The target a pass's dependency view opens on: the return of the first
/// fragment entry point that has one, else that of the first entry point that
/// has one, else the first target collected.
pub open spec fn spec_root_target_id(m: ShaderModule, collected: Seq<TargetSpec>) -> Option<Seq<char>> {
    let ids = target_ids(collected);
    match first_return_in(spec_fragment_scopes(m, m.entry_points@.len() as int), ids) {
        Some(id) => Some(id),
        None => match first_return_in(spec_entry_scopes(m), ids) {
            Some(id) => Some(id),
            None => if collected.len() > 0 {
                Some(collected[0].id)
            } else {
                None
            },
        },
    }
}

/// The dependency targets of a module and the id of the root target.
pub open spec fn spec_dependency_index(b: Seq<u8>, m: ShaderModule) -> (Seq<TargetSpec>, Option<Seq<char>>) {
    let collected = dedup_targets(spec_candidates(b, m));
    (sorted_targets(collected), spec_root_target_id(m, collected))
}

fn contains_id(targets: &Vec<PassDebugDependencyTarget>, id: &String) -> (r: bool)
    ensures
        r == target_ids(tviews(targets@)).contains(id@),
{
    let mut i: usize = 0;
    while i < targets.len()
        invariant
            i <= targets@.len(),
            forall|j: int| 0 <= j < i ==> targets@[j].id@ != id@,
        decreases targets@.len() - i,
    {
        if targets[i].id == *id {
            assert(target_ids(tviews(targets@))[i as int] == id@);
            return true;
        }
        i = i + 1;
    }
    proof {
        if target_ids(tviews(targets@)).contains(id@) {
            let j = choose|j: int| 0 <= j < target_ids(tviews(targets@)).len() && target_ids(tviews(targets@))[j] == id@;
            assert(targets@[j].id@ == id@);
        }
    }
    false
}

fn first_return_among(scopes: &Vec<String>, targets: &Vec<PassDebugDependencyTarget>) -> (r: Option<String>)
    ensures
        match r {
            Some(id) => first_return_in(scopes@.map_values(|s: String| s@), target_ids(tviews(targets@)))
                == Some(id@),
            None => first_return_in(scopes@.map_values(|s: String| s@), target_ids(tviews(targets@))) is None,
        },
{
    let ghost ids = target_ids(tviews(targets@));
    let ghost all = scopes@.map_values(|s: String| s@);
    let mut i: usize = 0;
    assert(all.skip(0) =~= all);
    while i < scopes.len()
        invariant
            i <= scopes@.len(),
            ids == target_ids(tviews(targets@)),
            all == scopes@.map_values(|s: String| s@),
            first_return_in(all, ids) == first_return_in(all.skip(i as int), ids),
        decreases scopes@.len() - i,
    {
        let id = return_id(scopes[i].as_str());
        assert(all.skip(i as int)[0] == scopes@[i as int]@);
        if contains_id(targets, &id) {
            return Some(id);
        }
        assert(all.skip(i as int).drop_first() =~= all.skip(i + 1));
        i = i + 1;
    }
    None
}

/// The dependency targets of a module, ordered by scope and name, and the id
/// of the root target.
pub fn dependency_index(m: &ShaderModule, source: &str) -> (r: (Vec<PassDebugDependencyTarget>, Option<String>))
    ensures
        tviews(r.0@) == spec_dependency_index(source.spec_bytes(), *m).0,
        opt_view(r.1) == spec_dependency_index(source.spec_bytes(), *m).1,
{
    let collected = collect_targets(m, source);
    let fragments = fragment_scopes(m);
    let mut entries: Vec<String> = Vec::new();
    let mut i: usize = 0;
    while i < m.entry_points.len()
        invariant
            i <= m.entry_points@.len(),
            entries@.map_values(|s: String| s@) == spec_entry_scopes(*m).take(i as int),
        decreases m.entry_points@.len() - i,
    {
        let ghost before = entries@;
        let name = m.entry_points[i].name.clone();
        entries.push(name);
        assert(entries@.map_values(|s: String| s@) =~= before.map_values(|s: String| s@).push(name@));
        assert(spec_entry_scopes(*m).take(i + 1) =~= spec_entry_scopes(*m).take(i as int).push(name@));
        i = i + 1;
    }
    assert(spec_entry_scopes(*m).take(i as int) =~= spec_entry_scopes(*m));
    let root = match first_return_among(&fragments, &collected) {
        Some(id) => Some(id),
        None => match first_return_among(&entries, &collected) {
            Some(id) => Some(id),
            None => if collected.len() > 0 {
                Some(collected[0].id.clone())
            } else {
                None
            },
        },
    };
    let sorted = sort_targets(collected);
    (sorted, root)
}


// ---------------------------------------------------------------------------
// Laws of the index
// ---------------------------------------------------------------------------

proof fn lemma_bytes_lt_irreflexive(a: Seq<u8>)
    ensures
        !bytes_lt(a, a),
    decreases a.len(),
{
    if a.len() > 0 {
        lemma_bytes_lt_irreflexive(a.drop_first());
    }
}

proof fn lemma_bytes_lt_transitive(a: Seq<u8>, b: Seq<u8>, c: Seq<u8>)
    requires
        bytes_lt(a, b),
        bytes_lt(b, c),
    ensures
        bytes_lt(a, c),
    decreases a.len(),
{
    if a.len() > 0 && b.len() > 0 && c.len() > 0 && a[0] == b[0] && b[0] == c[0] {
        lemma_bytes_lt_transitive(a.drop_first(), b.drop_first(), c.drop_first());
    }
}

proof fn lemma_bytes_lt_total(a: Seq<u8>, b: Seq<u8>)
    ensures
        a == b || bytes_lt(a, b) || bytes_lt(b, a),
    decreases a.len(),
{
    if a.len() > 0 && b.len() > 0 && a[0] == b[0] {
        lemma_bytes_lt_total(a.drop_first(), b.drop_first());
        if a.drop_first() == b.drop_first() {
            assert(a =~= seq![a[0]] + a.drop_first());
            assert(b =~= seq![b[0]] + b.drop_first());
        }
    } else if a.len() == 0 && b.len() == 0 {
        assert(a =~= b);
    }
}

proof fn lemma_bytes_lt_asymmetric(a: Seq<u8>, b: Seq<u8>)
    ensures
        !(bytes_lt(a, b) && bytes_lt(b, a)),
{
    if bytes_lt(a, b) && bytes_lt(b, a) {
        lemma_bytes_lt_transitive(a, b, a);
        lemma_bytes_lt_irreflexive(a);
    }
}

pub open spec fn target_key_eq(a: TargetSpec, b: TargetSpec) -> bool {
    encode_utf8(a.scope) == encode_utf8(b.scope) && encode_utf8(a.name) == encode_utf8(b.name)
}

/// `target_lt` orders targets strictly and totally up to equal keys.
proof fn lemma_target_lt_order(a: TargetSpec, b: TargetSpec, c: TargetSpec)
    ensures
        !target_lt(a, a),
        !(target_lt(a, b) && target_lt(b, a)),
        target_lt(a, b) && target_lt(b, c) ==> target_lt(a, c),
        target_lt(a, b) || target_lt(b, a) || target_key_eq(a, b),
{
    let (sa, sb, sc) = (encode_utf8(a.scope), encode_utf8(b.scope), encode_utf8(c.scope));
    let (na, nb, nc) = (encode_utf8(a.name), encode_utf8(b.name), encode_utf8(c.name));
    lemma_bytes_lt_irreflexive(sa);
    lemma_bytes_lt_irreflexive(na);
    lemma_bytes_lt_asymmetric(sa, sb);
    lemma_bytes_lt_asymmetric(na, nb);
    lemma_bytes_lt_total(sa, sb);
    lemma_bytes_lt_total(na, nb);
    if bytes_lt(sa, sb) && bytes_lt(sb, sc) {
        lemma_bytes_lt_transitive(sa, sb, sc);
    }
    if bytes_lt(na, nb) && bytes_lt(nb, nc) {
        lemma_bytes_lt_transitive(na, nb, nc);
    }
}

/// No element of `s` comes after a later one.
pub open spec fn is_sorted_targets(s: Seq<TargetSpec>) -> bool {
    forall|i: int, j: int| 0 <= i < j < s.len() ==> !target_lt(#[trigger] s[j], #[trigger] s[i])
}

proof fn lemma_insert_pos_facts(s: Seq<TargetSpec>, x: TargetSpec)
    ensures
        insert_pos(s, x) <= s.len(),
        forall|k: int| insert_pos(s, x) <= k < s.len() ==> target_lt(x, #[trigger] s[k]),
        insert_pos(s, x) > 0 ==> !target_lt(x, s[insert_pos(s, x) - 1]),
    decreases s.len(),
{
    if s.len() > 0 && target_lt(x, s.last()) {
        lemma_insert_pos_facts(s.drop_last(), x);
        let p = insert_pos(s.drop_last(), x);
        assert forall|k: int| p <= k < s.len() implies target_lt(x, #[trigger] s[k]) by {
            if k < s.len() - 1 {
                assert(s.drop_last()[k] == s[k]);
            }
        }
        if p > 0 {
            assert(s.drop_last()[p - 1] == s[p - 1]);
        }
    }
}

proof fn lemma_sorted_targets_facts(s: Seq<TargetSpec>)
    ensures
        is_sorted_targets(sorted_targets(s)),
        sorted_targets(s).len() == s.len(),
        forall|x: TargetSpec| sorted_targets(s).contains(x) <==> s.contains(x),
    decreases s.len(),
{
    if s.len() > 0 {
        let prev = sorted_targets(s.drop_last());
        let x = s.last();
        lemma_sorted_targets_facts(s.drop_last());
        lemma_insert_pos_facts(prev, x);
        let p = insert_pos(prev, x) as int;
        let r = prev.insert(p, x);
        prev.insert_ensures(p, x);
        assert(r == sorted_targets(s));
        assert forall|i: int, j: int| 0 <= i < j < r.len() implies !target_lt(#[trigger] r[j], #[trigger] r[i]) by {
            if j < p {
                assert(r[i] == prev[i] && r[j] == prev[j]);
            } else if j == p {
                assert(r[i] == prev[i]);
                assert(!target_lt(x, prev[p - 1]));
                if i < p - 1 {
                    assert(!target_lt(prev[p - 1], prev[i]));
                    lemma_target_lt_order(x, prev[i], prev[p - 1]);
                    lemma_target_lt_order(prev[i], prev[p - 1], x);
                    lemma_target_lt_order(prev[p - 1], prev[i], x);
                    lemma_target_lt_order(x, prev[p - 1], prev[i]);
                }
            } else if i == p {
                assert(r[j] == prev[j - 1]);
                assert(target_lt(x, prev[j - 1]));
                lemma_target_lt_order(x, prev[j - 1], x);
            } else if i < p {
                assert(r[i] == prev[i] && r[j] == prev[j - 1]);
            } else {
                assert(r[i] == prev[i - 1] && r[j] == prev[j - 1]);
            }
        }
        assert forall|y: TargetSpec| r.contains(y) <==> s.contains(y) by {
            if r.contains(y) {
                let k = choose|k: int| 0 <= k < r.len() && r[k] == y;
                if k == p {
                    assert(s[s.len() - 1] == y);
                } else {
                    let q = if k < p { k } else { k - 1 };
                    assert(r[k] == prev[q]);
                    assert(prev[q] == y);
                    assert(prev.contains(y));
                    assert(s.drop_last().contains(y));
                    let m = choose|m: int| 0 <= m < s.drop_last().len() && s.drop_last()[m] == y;
                    assert(s[m] == y);
                }
            }
            if s.contains(y) {
                let k = choose|k: int| 0 <= k < s.len() && s[k] == y;
                if k == s.len() - 1 {
                    assert(r[p] == y);
                } else {
                    assert(s.drop_last()[k] == y);
                    assert(s.drop_last().contains(y));
                    let q = choose|q: int| 0 <= q < prev.len() && prev[q] == y;
                    if q < p {
                        assert(r[q] == y);
                    } else {
                        assert(r[q + 1] == y);
                    }
                }
            }
        }
    }
}

/// No two targets share an id.
pub open spec fn ids_unique(s: Seq<TargetSpec>) -> bool {
    forall|i: int, j: int| 0 <= i < j < s.len() ==> (#[trigger] s[i]).id != (#[trigger] s[j]).id
}

proof fn lemma_dedup_unique(cs: Seq<TargetSpec>)
    ensures
        ids_unique(dedup_targets(cs)),
        forall|x: TargetSpec| dedup_targets(cs).contains(x) ==> cs.contains(x),
    decreases cs.len(),
{
    if cs.len() > 0 {
        lemma_dedup_unique(cs.drop_last());
        let prev = dedup_targets(cs.drop_last());
        let x = cs.last();
        if !target_ids(prev).contains(x.id) {
            let r = prev.push(x);
            assert forall|i: int, j: int| 0 <= i < j < r.len() implies (#[trigger] r[i]).id != (
            #[trigger] r[j]).id by {
                if j == r.len() - 1 {
                    assert(target_ids(prev)[i] == prev[i].id);
                }
            }
        }
        assert forall|y: TargetSpec| dedup_targets(cs).contains(y) implies cs.contains(y) by {
            let d = dedup_targets(cs);
            let k = choose|k: int| 0 <= k < d.len() && d[k] == y;
            if k < prev.len() {
                assert(d[k] == prev[k]);
                assert(prev[k] == y);
                assert(prev.contains(y));
                assert(cs.drop_last().contains(y));
                let m = choose|m: int| 0 <= m < cs.drop_last().len() && cs.drop_last()[m] == y;
                assert(cs[m] == y);
            } else {
                assert(cs[cs.len() - 1] == y);
            }
        }
    }
}

proof fn lemma_sorted_unique(s: Seq<TargetSpec>)
    requires
        ids_unique(s),
    ensures
        ids_unique(sorted_targets(s)),
    decreases s.len(),
{
    if s.len() > 0 {
        assert(ids_unique(s.drop_last())) by {
            assert forall|i: int, j: int| 0 <= i < j < s.drop_last().len() implies (
            #[trigger] s.drop_last()[i]).id != (#[trigger] s.drop_last()[j]).id by {
                assert(s.drop_last()[i] == s[i] && s.drop_last()[j] == s[j]);
            }
        }
        lemma_sorted_unique(s.drop_last());
        lemma_sorted_targets_facts(s.drop_last());
        let prev = sorted_targets(s.drop_last());
        let x = s.last();
        lemma_insert_pos_facts(prev, x);
        let p = insert_pos(prev, x) as int;
        let r = prev.insert(p, x);
        prev.insert_ensures(p, x);
        assert forall|k: int| 0 <= k < prev.len() implies (#[trigger] prev[k]).id != x.id by {
            assert(prev.contains(prev[k]));
            assert(s.drop_last().contains(prev[k]));
            let m = choose|m: int| 0 <= m < s.drop_last().len() && s.drop_last()[m] == prev[k];
            assert(s[m] == prev[k]);
        }
        assert forall|i: int, j: int| 0 <= i < j < r.len() implies (#[trigger] r[i]).id != (
        #[trigger] r[j]).id by {
            if j < p {
                assert(r[i] == prev[i] && r[j] == prev[j]);
            } else if j == p {
                assert(r[i] == prev[i]);
            } else if i == p {
                assert(r[j] == prev[j - 1]);
            } else if i < p {
                assert(r[i] == prev[i] && r[j] == prev[j - 1]);
            } else {
                assert(r[i] == prev[i - 1] && r[j] == prev[j - 1]);
            }
        }
    }
}

/// The dependency targets of a module are ordered by scope and then name,
/// no two share an id, and they are exactly the collected targets (each
/// candidate whose id was not seen before), rearranged.
pub proof fn lemma_dependency_index_is_ordered_and_unique(b: Seq<u8>, m: ShaderModule)
    ensures
        is_sorted_targets(spec_dependency_index(b, m).0),
        ids_unique(spec_dependency_index(b, m).0),
        spec_dependency_index(b, m).0.len() == dedup_targets(spec_candidates(b, m)).len(),
        forall|x: TargetSpec|
            spec_dependency_index(b, m).0.contains(x) <==> dedup_targets(spec_candidates(b, m)).contains(x),
        forall|x: TargetSpec| spec_dependency_index(b, m).0.contains(x) ==> spec_candidates(b, m).contains(x),
{
    let collected = dedup_targets(spec_candidates(b, m));
    lemma_sorted_targets_facts(collected);
    lemma_dedup_unique(spec_candidates(b, m));
    lemma_sorted_unique(collected);
}


/// A global, argument or local target's source range, when it has one,
/// covers exactly the target's name.
pub open spec fn named_range_ok(b: Seq<u8>, c: TargetSpec) -> bool {
    (c.kind == "global"@ || c.kind == "argument"@ || c.kind == "local"@) ==> match c.source_range {
        Some(r) => range_selects(b, r, encode_utf8(c.name)),
        None => true,
    }
}

proof fn lemma_kind_names_differ()
    ensures
        "let"@ != "global"@,
        "let"@ != "argument"@,
        "let"@ != "local"@,
        "return"@ != "global"@,
        "return"@ != "argument"@,
        "return"@ != "local"@,
{
    reveal_strlit("let");
    reveal_strlit("return");
    reveal_strlit("global");
    reveal_strlit("argument");
    reveal_strlit("local");
    assert("let"@.len() != "global"@.len());
    assert("let"@.len() != "argument"@.len());
    assert("let"@[1] != "local"@[1]);
    assert("return"@[0] != "global"@[0]);
    assert("return"@.len() != "argument"@.len());
    assert("return"@.len() != "local"@.len());
}

proof fn lemma_function_targets_ranges(b: Seq<u8>, scope: Seq<char>, f: IrFunction)
    ensures
        forall|i: int|
            0 <= i < spec_function_targets(b, scope, f).len() ==> named_range_ok(
                b,
                #[trigger] spec_function_targets(b, scope, f)[i],
            ),
{
    lemma_kind_names_differ();
    let args = Seq::new(f.arguments@.len(), |i: int| spec_argument_target(b, scope, i as nat, f.arguments@[i]));
    let locals = Seq::new(f.locals@.len(), |h: int| spec_local_target(b, scope, h as nat, f.locals@[h]));
    let lets = Seq::new(
        f.named_expressions@.len(),
        |j: int| spec_let_target(b, scope, f.expressions@, f.named_expressions@[j]),
    );
    let all = spec_function_targets(b, scope, f);
    assert(all == args + locals + lets);
    assert forall|i: int| 0 <= i < all.len() implies named_range_ok(b, #[trigger] all[i]) by {
        if i < args.len() {
            let t = args[i];
            lemma_argument_range_selects_name(b, encode_utf8(scope), encode_utf8(t.name));
        } else if i < args.len() + locals.len() {
            let h = i - args.len();
            let t = locals[h];
            assert(all[i] == t);
            let l = f.locals@[h];
            if let Some(sp) = l.span {
                lemma_occurrence_range_selects_name(b, encode_utf8(t.name), sp.start as int, sp.end as int, 0, false);
            }
            lemma_keyword_in_scope_selects_name(b, encode_utf8(scope), encode_utf8("var"@), encode_utf8(t.name));
        } else {
            assert(all[i] == lets[i - args.len() - locals.len()]);
        }
    }
}

proof fn lemma_entries_targets_ranges(b: Seq<u8>, m: ShaderModule, k: int)
    ensures
        forall|i: int|
            0 <= i < spec_entries_targets(b, m, k).len() ==> named_range_ok(
                b,
                #[trigger] spec_entries_targets(b, m, k)[i],
            ),
    decreases k,
{
    if k > 0 {
        lemma_entries_targets_ranges(b, m, k - 1);
        let e = m.entry_points@[k - 1];
        lemma_function_targets_ranges(b, e.name@, e.function);
        let prev = spec_entries_targets(b, m, k - 1);
        let add = spec_function_targets(b, e.name@, e.function);
        assert forall|i: int| 0 <= i < (prev + add).len() implies named_range_ok(b, #[trigger] (prev + add)[i]) by {
            if i < prev.len() {
                assert((prev + add)[i] == prev[i]);
            } else {
                assert((prev + add)[i] == add[i - prev.len()]);
            }
        }
    }
}

proof fn lemma_functions_targets_ranges(b: Seq<u8>, m: ShaderModule, k: int)
    ensures
        forall|i: int|
            0 <= i < spec_functions_targets(b, m, k).len() ==> named_range_ok(
                b,
                #[trigger] spec_functions_targets(b, m, k)[i],
            ),
    decreases k,
{
    if k > 0 {
        lemma_functions_targets_ranges(b, m, k - 1);
        let f = m.functions@[k - 1];
        let scope = spec_function_scope((k - 1) as nat, f.name);
        lemma_function_targets_ranges(b, scope, f);
        let prev = spec_functions_targets(b, m, k - 1);
        let add = spec_function_targets(b, scope, f);
        assert forall|i: int| 0 <= i < (prev + add).len() implies named_range_ok(b, #[trigger] (prev + add)[i]) by {
            if i < prev.len() {
                assert((prev + add)[i] == prev[i]);
            } else {
                assert((prev + add)[i] == add[i - prev.len()]);
            }
        }
    }
}

proof fn lemma_return_targets_ranges(b: Seq<u8>, m: ShaderModule, scopes: Seq<Seq<char>>, k: int)
    ensures
        forall|i: int|
            0 <= i < spec_return_targets(m, scopes, k).len() ==> named_range_ok(
                b,
                #[trigger] spec_return_targets(m, scopes, k)[i],
            ),
    decreases k,
{
    lemma_kind_names_differ();
    if k > 0 {
        lemma_return_targets_ranges(b, m, scopes, k - 1);
        let prev = spec_return_targets(m, scopes, k - 1);
        let r = spec_return_targets(m, scopes, k);
        assert forall|i: int| 0 <= i < r.len() implies named_range_ok(b, #[trigger] r[i]) by {
            if i < prev.len() {
                assert(r[i] == prev[i]);
            }
        }
    }
}

/// Every global, argument and local dependency target of a module whose
/// source range was found has a range covering exactly its name, at a line
/// and column of at least 1.
pub proof fn lemma_named_target_ranges_select_names(b: Seq<u8>, m: ShaderModule)
    ensures
        forall|i: int|
            0 <= i < spec_dependency_index(b, m).0.len() ==> named_range_ok(
                b,
                #[trigger] spec_dependency_index(b, m).0[i],
            ),
{
    let globals = spec_globals_targets(b, m);
    let entries = spec_entries_targets(b, m, m.entry_points@.len() as int);
    let funcs = spec_functions_targets(b, m, m.functions@.len() as int);
    let rets = spec_return_targets(m, spec_return_scopes(m), spec_return_scopes(m).len() as int);
    let cands = spec_candidates(b, m);
    assert(cands == globals + entries + funcs + rets);
    lemma_entries_targets_ranges(b, m, m.entry_points@.len() as int);
    lemma_functions_targets_ranges(b, m, m.functions@.len() as int);
    lemma_return_targets_ranges(b, m, spec_return_scopes(m), spec_return_scopes(m).len() as int);
    lemma_kind_names_differ();
    assert forall|i: int| 0 <= i < cands.len() implies named_range_ok(b, #[trigger] cands[i]) by {
        if i < globals.len() {
            let g = m.globals@[i];
            let t = globals[i];
            assert(cands[i] == t);
            if let Some(sp) = g.span {
                lemma_occurrence_range_selects_name(b, encode_utf8(t.name), sp.start as int, sp.end as int, 0, false);
            }
            lemma_occurrence_range_selects_name(b, encode_utf8(t.name), 0, b.len() as int, 0, false);
        } else if i < globals.len() + entries.len() {
            assert(cands[i] == entries[i - globals.len()]);
        } else if i < globals.len() + entries.len() + funcs.len() {
            assert(cands[i] == funcs[i - globals.len() - entries.len()]);
        } else {
            assert(cands[i] == rets[i - globals.len() - entries.len() - funcs.len()]);
        }
    }
    lemma_dependency_index_is_ordered_and_unique(b, m);
    let idx = spec_dependency_index(b, m).0;
    assert forall|i: int| 0 <= i < idx.len() implies named_range_ok(b, #[trigger] idx[i]) by {
        assert(idx.contains(idx[i]));
        assert(cands.contains(idx[i]));
        let j = choose|j: int| 0 <= j < cands.len() && cands[j] == idx[i];
        assert(named_range_ok(b, cands[j]));
    }
}


proof fn lemma_first_return_in_push(a: Seq<Seq<char>>, x: Seq<char>, ids: Seq<Seq<char>>)
    ensures
        first_return_in(a.push(x), ids) == (match first_return_in(a, ids) {
            Some(v) => Some(v),
            None => if ids.contains(spec_return_id(x)) {
                Some(spec_return_id(x))
            } else {
                None
            },
        }),
    decreases a.len(),
{
    if a.len() == 0 {
        assert(a.push(x).drop_first() =~= Seq::<Seq<char>>::empty());
        assert(a.push(x)[0] == x);
        assert(first_return_in(a.push(x).drop_first(), ids) is None);
        assert(first_return_in(a, ids) is None);
    } else {
        assert(a.push(x)[0] == a[0]);
        assert(a.push(x).drop_first() =~= a.drop_first().push(x));
        lemma_first_return_in_push(a.drop_first(), x, ids);
    }
}

/// Entry point `j` is a fragment entry point whose return is among `ids`.
pub open spec fn fragment_return_at(m: ShaderModule, ids: Seq<Seq<char>>, j: int) -> bool {
    m.entry_points@[j].stage == IrStage::Fragment && ids.contains(spec_return_id(m.entry_points@[j].name@))
}

proof fn lemma_first_fragment_return(m: ShaderModule, ids: Seq<Seq<char>>, k: int)
    requires
        0 <= k <= m.entry_points@.len(),
    ensures
        forall|i: int|
            0 <= i < k && #[trigger] fragment_return_at(m, ids, i) && (forall|j: int|
                0 <= j < i ==> !fragment_return_at(m, ids, j)) ==> first_return_in(spec_fragment_scopes(m, k), ids)
                == Some(spec_return_id(m.entry_points@[i].name@)),
        (forall|j: int| 0 <= j < k ==> !fragment_return_at(m, ids, j)) ==> first_return_in(
            spec_fragment_scopes(m, k),
            ids,
        ) is None,
    decreases k,
{
    if k > 0 {
        lemma_first_fragment_return(m, ids, k - 1);
        let e = m.entry_points@[k - 1];
        if e.stage == IrStage::Fragment {
            lemma_first_return_in_push(spec_fragment_scopes(m, k - 1), e.name@, ids);
        }
        if forall|j: int| 0 <= j < k ==> !fragment_return_at(m, ids, j) {
            assert(!fragment_return_at(m, ids, k - 1));
            assert(forall|j: int| 0 <= j < k - 1 ==> !fragment_return_at(m, ids, j));
        }
        assert forall|i: int|
            0 <= i < k && #[trigger] fragment_return_at(m, ids, i) && (forall|j: int|
                0 <= j < i ==> !fragment_return_at(m, ids, j)) implies first_return_in(spec_fragment_scopes(m, k), ids)
            == Some(spec_return_id(m.entry_points@[i].name@)) by {
            if i < k - 1 {
            } else {
                assert(forall|j: int| 0 <= j < k - 1 ==> !fragment_return_at(m, ids, j));
            }
        }
    }
}

proof fn lemma_ids_of_same_targets(a: Seq<TargetSpec>, b: Seq<TargetSpec>, id: Seq<char>)
    requires
        forall|x: TargetSpec| a.contains(x) <==> b.contains(x),
    ensures
        target_ids(a).contains(id) <==> target_ids(b).contains(id),
{
    if target_ids(a).contains(id) {
        let q = choose|q: int| 0 <= q < target_ids(a).len() && target_ids(a)[q] == id;
        assert(a.contains(a[q]));
        let r = choose|r: int| 0 <= r < b.len() && b[r] == a[q];
        assert(target_ids(b)[r] == id);
    }
    if target_ids(b).contains(id) {
        let q = choose|q: int| 0 <= q < target_ids(b).len() && target_ids(b)[q] == id;
        assert(b.contains(b[q]));
        let r = choose|r: int| 0 <= r < a.len() && a[r] == b[q];
        assert(target_ids(a)[r] == id);
    }
}

/// When some fragment entry point has a return among the module's targets,
/// the root target is the return of the first such fragment entry point,
/// whatever entry points of other stages come before it.
pub proof fn lemma_root_is_first_fragment_return(b: Seq<u8>, m: ShaderModule, i: int)
    requires
        0 <= i < m.entry_points@.len(),
        fragment_return_at(m, target_ids(spec_dependency_index(b, m).0), i),
        forall|j: int| 0 <= j < i ==> !fragment_return_at(m, target_ids(spec_dependency_index(b, m).0), j),
    ensures
        spec_dependency_index(b, m).1 == Some(spec_return_id(m.entry_points@[i].name@)),
{
    let collected = dedup_targets(spec_candidates(b, m));
    let shown = spec_dependency_index(b, m).0;
    lemma_dependency_index_is_ordered_and_unique(b, m);
    let ids = target_ids(collected);
    assert forall|j: int| 0 <= j < m.entry_points@.len() implies fragment_return_at(m, ids, j) == fragment_return_at(
        m,
        target_ids(shown),
        j,
    ) by {
        lemma_ids_of_same_targets(shown, collected, spec_return_id(m.entry_points@[j].name@));
    }
    lemma_first_fragment_return(m, ids, m.entry_points@.len() as int);
    assert(fragment_return_at(m, ids, i));
    assert(forall|j: int| 0 <= j < i ==> !fragment_return_at(m, ids, j));
}

} // verus!
