//! Reaching definitions of the named values of a module.
//!
//! Each function body is walked in statement order. A store through a
//! pointer whose root is an argument, a local or a global records a
//! definition site of that target; the environment maps every target to the
//! definition sites that reach the current point. Branches of an `if`, the
//! cases of a `switch` and a loop's iterations are analysed from the
//! environment before them and their results merged; the conditions that
//! govern a point are kept as control dependencies. The walk also records,
//! for every emitted expression, the environment at its first emission, the
//! returns of each function and the calls that produce a result.

use vstd::prelude::*;
use vstd::string::StringSliceAdditionalSpecFns;
use vstd::utf8::encode_utf8;

use super::ast::{function_scope, global_id, scoped_id, spec_function_scope, spec_global_id, spec_scoped_id};
use super::definitions::{
    append_new, copy_env, defs_or_empty, env_map, keys_distinct, lemma_append_new_from, merge_definition_env_into,
    merged_env, set_definitions, DefinitionEnv,
};
use super::dependency::{
    collect_function_targets, dedup_targets, global_target, push_unique, spec_entries_targets,
    spec_function_targets, spec_functions_targets, spec_globals_targets, target_ids, tview, tviews, TargetSpec,
};
use super::ir::{
    IrExprKind, IrExprLeaf, IrExprOp, IrExpression, IrFunction, IrLocal, IrStatement, IrStmtOp, IrSwitchCase,
    ShaderModule,
};
use super::model::{PassDebugDependencyTarget, PassDebugSourceRange};
use super::source_mapping::{
    find_function_range, find_identifier_range, find_last_identifier_range, find_store_lhs_identifier_range,
    line_end, line_start, source_range_from_byte_range, spec_function_range, spec_last_word_range,
    spec_occurrence_range, spec_source_range, spec_store_lhs_range,
};
use crate::text::{concat, owned};

verus! {

// ---------------------------------------------------------------------------
// Environments and the records of the walk
// ---------------------------------------------------------------------------

/// The definitions that reach a point, per target id.
pub open spec fn env_view(e: DefinitionEnv) -> Map<Seq<char>, Seq<usize>> {
    env_map(e.entries@)
}

pub open spec fn env_ok(e: DefinitionEnv) -> bool {
    keys_distinct(e.entries@)
}

/// A condition that governs a point: the label of the branch, the condition
/// expression and the definitions that reach the condition.
pub struct ControlDependency {
    pub label: String,
    pub expr: usize,
    pub env: DefinitionEnv,
}

pub struct ControlView {
    pub label: Seq<char>,
    pub expr: usize,
    pub env: Map<Seq<char>, Seq<usize>>,
}

pub open spec fn control_view(c: ControlDependency) -> ControlView {
    ControlView { label: c.label@, expr: c.expr, env: env_view(c.env) }
}

pub open spec fn controls_view(cs: Seq<ControlDependency>) -> Seq<ControlView> {
    cs.map_values(|c: ControlDependency| control_view(c))
}

/// A store of `value` (an expression of function `scope`) into `target_id`,
/// or the initializer of a local, with the conditions that govern it, the
/// definitions that reach it and the source range of the stored name.
pub struct DefinitionSite {
    pub target_id: String,
    pub scope: String,
    pub value: Option<usize>,
    pub controls: Vec<ControlDependency>,
    pub env: DefinitionEnv,
    pub source_range: Option<PassDebugSourceRange>,
}

pub struct SiteView {
    pub target_id: Seq<char>,
    pub scope: Seq<char>,
    pub value: Option<usize>,
    pub controls: Seq<ControlView>,
    pub env: Map<Seq<char>, Seq<usize>>,
    pub source_range: Option<PassDebugSourceRange>,
}

pub open spec fn site_view(s: DefinitionSite) -> SiteView {
    SiteView {
        target_id: s.target_id@,
        scope: s.scope@,
        value: s.value,
        controls: controls_view(s.controls@),
        env: env_view(s.env),
        source_range: s.source_range,
    }
}

/// A `return` of function `scope`.
pub struct ReturnDependency {
    pub scope: String,
    pub value: Option<usize>,
    pub controls: Vec<ControlDependency>,
    pub env: DefinitionEnv,
}

pub struct ReturnView {
    pub scope: Seq<char>,
    pub value: Option<usize>,
    pub controls: Seq<ControlView>,
    pub env: Map<Seq<char>, Seq<usize>>,
}

pub open spec fn return_view(r: ReturnDependency) -> ReturnView {
    ReturnView { scope: r.scope@, value: r.value, controls: controls_view(r.controls@), env: env_view(r.env) }
}

/// A call of function `function` whose result is expression `result` of
/// function `scope`.
pub struct CallDependency {
    pub scope: String,
    pub result: usize,
    pub function: usize,
    pub arguments: Vec<usize>,
}

pub struct CallView {
    pub function: usize,
    pub arguments: Seq<usize>,
}

/// The environment recorded for expression `handle` of function `scope`.
pub struct ExpressionEnv {
    pub scope: String,
    pub handle: usize,
    pub env: DefinitionEnv,
}

/// What the walk has recorded so far.
pub struct DefinitionFlow {
    pub definitions: Vec<DefinitionSite>,
    pub expression_envs: Vec<ExpressionEnv>,
    pub returns: Vec<ReturnDependency>,
    pub calls: Vec<CallDependency>,
    /// How many stores into each target had their name looked up in the
    /// source so far.
    pub store_counts: Vec<(String, usize)>,
}

pub struct FlowView {
    pub defs: Seq<SiteView>,
    pub expr_envs: Seq<((Seq<char>, usize), Map<Seq<char>, Seq<usize>>)>,
    pub returns: Seq<ReturnView>,
    pub calls: Seq<((Seq<char>, usize), CallView)>,
    pub counts: Seq<(Seq<char>, usize)>,
}

pub open spec fn flow_view(f: DefinitionFlow) -> FlowView {
    FlowView {
        defs: f.definitions@.map_values(|s: DefinitionSite| site_view(s)),
        expr_envs: f.expression_envs@.map_values(|e: ExpressionEnv| ((e.scope@, e.handle), env_view(e.env))),
        returns: f.returns@.map_values(|r: ReturnDependency| return_view(r)),
        calls: f.calls@.map_values(
            |c: CallDependency| ((c.scope@, c.result), CallView { function: c.function, arguments: c.arguments@ }),
        ),
        counts: f.store_counts@.map_values(|e: (String, usize)| (e.0@, e.1)),
    }
}

// ---------------------------------------------------------------------------
// Tables keyed by the first entry with a key
// ---------------------------------------------------------------------------

pub open spec fn keys_of<K, V>(t: Seq<(K, V)>) -> Seq<K> {
    t.map_values(|e: (K, V)| e.0)
}

/// `i` is the first position of key `k` in `keys`.
pub open spec fn first_at<K>(keys: Seq<K>, k: K, i: int) -> bool {
    &&& 0 <= i < keys.len()
    &&& keys[i] == k
    &&& forall|j: int| 0 <= j < i ==> keys[j] != k
}

pub open spec fn has_key<K, V>(t: Seq<(K, V)>, k: K) -> bool {
    exists|i: int| first_at(keys_of(t), k, i)
}

pub open spec fn first_of<K, V>(t: Seq<(K, V)>, k: K) -> int {
    choose|i: int| first_at(keys_of(t), k, i)
}

/// `t` with the value of `k` replaced by `v`, or `(k, v)` appended.
pub open spec fn put<K, V>(t: Seq<(K, V)>, k: K, v: V) -> Seq<(K, V)> {
    if has_key(t, k) {
        t.update(first_of(t, k), (k, v))
    } else {
        t.push((k, v))
    }
}

/// `t` with `(k, v)` appended unless `k` is already there.
pub open spec fn put_new<K, V>(t: Seq<(K, V)>, k: K, v: V) -> Seq<(K, V)> {
    if has_key(t, k) {
        t
    } else {
        t.push((k, v))
    }
}

/// The count of `k`, or zero.
pub open spec fn count_of(t: Seq<(Seq<char>, usize)>, k: Seq<char>) -> usize {
    if has_key(t, k) {
        t[first_of(t, k)].1
    } else {
        0
    }
}

pub(crate) proof fn lemma_first_unique<K>(keys: Seq<K>, k: K, i: int, j: int)
    requires
        first_at(keys, k, i),
        first_at(keys, k, j),
    ensures
        i == j,
{
    if i < j {
        assert(keys[i] != k);
    } else if j < i {
        assert(keys[j] != k);
    }
}

/// Where the first entry for `(scope, handle)` is, if any.
fn find_expression_env(t: &Vec<ExpressionEnv>, scope: &String, handle: usize) -> (r: Option<usize>)
    ensures
        match r {
            Some(i) => first_at(keys_of(flow_keys_env(t@)), (scope@, handle), i as int),
            None => !has_key(flow_keys_env(t@), (scope@, handle)),
        },
{
    let ghost keys = keys_of(flow_keys_env(t@));
    let mut i: usize = 0;
    while i < t.len()
        invariant
            keys == keys_of(flow_keys_env(t@)),
            keys.len() == t@.len(),
            i <= t@.len(),
            forall|j: int| 0 <= j < i ==> keys[j] != (scope@, handle),
        decreases t@.len() - i,
    {
        assert(keys[i as int] == (t@[i as int].scope@, t@[i as int].handle));
        if t[i].handle == handle && t[i].scope == *scope {
            return Some(i);
        }
        i = i + 1;
    }
    None
}

pub open spec fn flow_keys_env(t: Seq<ExpressionEnv>) -> Seq<((Seq<char>, usize), Map<Seq<char>, Seq<usize>>)> {
    t.map_values(|e: ExpressionEnv| ((e.scope@, e.handle), env_view(e.env)))
}

/// Records `env` for `(scope, handle)` unless an environment is recorded.
fn record_first_env(t: &mut Vec<ExpressionEnv>, scope: &String, handle: usize, env: &DefinitionEnv)
    ensures
        flow_keys_env(final(t)@) == put_new(flow_keys_env(old(t)@), (scope@, handle), env_view(*env)),
{
    match find_expression_env(t, scope, handle) {
        Some(_) => {},
        None => {
            let copy = copy_env(env);
            let ghost before = t@;
            t.push(ExpressionEnv { scope: scope.clone(), handle, env: copy });
            assert(flow_keys_env(t@) =~= flow_keys_env(before).push(((scope@, handle), env_view(*env))));
        },
    }
}

/// Records `env` for `(scope, handle)`, replacing a recorded one.
fn record_env(t: &mut Vec<ExpressionEnv>, scope: &String, handle: usize, env: &DefinitionEnv)
    ensures
        flow_keys_env(final(t)@) == put(flow_keys_env(old(t)@), (scope@, handle), env_view(*env)),
{
    let ghost before = t@;
    let ghost k = (scope@, handle);
    let copy = copy_env(env);
    match find_expression_env(t, scope, handle) {
        Some(i) => {
            proof {
                lemma_first_unique(keys_of(flow_keys_env(before)), k, i as int, first_of(flow_keys_env(before), k));
            }
            t.set(i, ExpressionEnv { scope: scope.clone(), handle, env: copy });
            assert(flow_keys_env(t@) =~= flow_keys_env(before).update(i as int, (k, env_view(*env))));
        },
        None => {
            t.push(ExpressionEnv { scope: scope.clone(), handle, env: copy });
            assert(flow_keys_env(t@) =~= flow_keys_env(before).push((k, env_view(*env))));
        },
    }
}

pub open spec fn flow_calls(t: Seq<CallDependency>) -> Seq<((Seq<char>, usize), CallView)> {
    t.map_values(
        |c: CallDependency| ((c.scope@, c.result), CallView { function: c.function, arguments: c.arguments@ }),
    )
}

fn copy_handles(v: &Vec<usize>) -> (r: Vec<usize>)
    ensures
        r@ == v@,
{
    let mut out: Vec<usize> = Vec::new();
    let mut i: usize = 0;
    while i < v.len()
        invariant
            i <= v@.len(),
            out@ == v@.take(i as int),
        decreases v@.len() - i,
    {
        out.push(v[i]);
        assert(v@.take(i + 1) =~= v@.take(i as int).push(v@[i as int]));
        i = i + 1;
    }
    assert(v@.take(i as int) =~= v@);
    out
}

pub(crate) fn find_call(t: &Vec<CallDependency>, scope: &String, result: usize) -> (r: Option<usize>)
    ensures
        match r {
            Some(i) => first_at(keys_of(flow_calls(t@)), (scope@, result), i as int),
            None => !has_key(flow_calls(t@), (scope@, result)),
        },
{
    let ghost keys = keys_of(flow_calls(t@));
    let mut i: usize = 0;
    while i < t.len()
        invariant
            keys == keys_of(flow_calls(t@)),
            keys.len() == t@.len(),
            i <= t@.len(),
            forall|j: int| 0 <= j < i ==> keys[j] != (scope@, result),
        decreases t@.len() - i,
    {
        assert(keys[i as int] == (t@[i as int].scope@, t@[i as int].result));
        if t[i].result == result && t[i].scope == *scope {
            return Some(i);
        }
        i = i + 1;
    }
    None
}

/// Records the call whose result is `(scope, result)`, replacing a recorded one.
fn record_call(t: &mut Vec<CallDependency>, scope: &String, result: usize, function: usize, arguments: &Vec<usize>)
    ensures
        flow_calls(final(t)@) == put(
            flow_calls(old(t)@),
            (scope@, result),
            CallView { function, arguments: arguments@ },
        ),
{
    let ghost before = t@;
    let ghost k = (scope@, result);
    let args = copy_handles(arguments);
    let entry = CallDependency { scope: scope.clone(), result, function, arguments: args };
    match find_call(t, scope, result) {
        Some(i) => {
            proof {
                lemma_first_unique(keys_of(flow_calls(before)), k, i as int, first_of(flow_calls(before), k));
            }
            t.set(i, entry);
            assert(flow_calls(t@) =~= flow_calls(before).update(i as int, (k, CallView { function, arguments: arguments@ })));
        },
        None => {
            t.push(entry);
            assert(flow_calls(t@) =~= flow_calls(before).push((k, CallView { function, arguments: arguments@ })));
        },
    }
}

pub open spec fn flow_counts(t: Seq<(String, usize)>) -> Seq<(Seq<char>, usize)> {
    t.map_values(|e: (String, usize)| (e.0@, e.1))
}

fn find_count(t: &Vec<(String, usize)>, key: &String) -> (r: Option<usize>)
    ensures
        match r {
            Some(i) => first_at(keys_of(flow_counts(t@)), key@, i as int),
            None => !has_key(flow_counts(t@), key@),
        },
{
    let ghost keys = keys_of(flow_counts(t@));
    let mut i: usize = 0;
    while i < t.len()
        invariant
            keys == keys_of(flow_counts(t@)),
            keys.len() == t@.len(),
            i <= t@.len(),
            forall|j: int| 0 <= j < i ==> keys[j] != key@,
        decreases t@.len() - i,
    {
        assert(keys[i as int] == t@[i as int].0@);
        if t[i].0 == *key {
            return Some(i);
        }
        i = i + 1;
    }
    None
}

/// One more than `k`, staying at the largest count.
pub open spec fn bump(k: usize) -> usize {
    if k < usize::MAX {
        (k + 1) as usize
    } else {
        k
    }
}

/// Returns the count of `key` and counts one more.
pub(crate) fn take_count_pub(t: &mut Vec<(String, usize)>, key: &String) -> (r: usize)
    ensures
        r == count_of(flow_counts(old(t)@), key@),
        flow_counts(final(t)@) == put(flow_counts(old(t)@), key@, bump(r)),
{
    take_count(t, key)
}

/// Returns the count of `key` and counts one more.
fn take_count(t: &mut Vec<(String, usize)>, key: &String) -> (r: usize)
    ensures
        r == count_of(flow_counts(old(t)@), key@),
        flow_counts(final(t)@) == put(flow_counts(old(t)@), key@, bump(r)),
{
    let ghost before = t@;
    match find_count(t, key) {
        Some(i) => {
            proof {
                lemma_first_unique(keys_of(flow_counts(before)), key@, i as int, first_of(flow_counts(before), key@));
            }
            let k = t[i].1;
            let next = if k < usize::MAX { k + 1 } else { k };
            t.set(i, (key.clone(), next));
            assert(flow_counts(t@) =~= flow_counts(before).update(i as int, (key@, bump(k))));
            k
        },
        None => {
            t.push((key.clone(), 1));
            assert(flow_counts(t@) =~= flow_counts(before).push((key@, bump(0))));
            0
        },
    }
}

// ---------------------------------------------------------------------------
// Targets known so far
// ---------------------------------------------------------------------------

/// The first of `known` with id `id`, if any.
pub open spec fn known_target(known: Seq<TargetSpec>, id: Seq<char>) -> Option<TargetSpec> {
    if exists|i: int| first_at(target_ids(known), id, i) {
        Some(known[choose|i: int| first_at(target_ids(known), id, i)])
    } else {
        None
    }
}

pub(crate) fn find_known(known: &Vec<PassDebugDependencyTarget>, id: &String) -> (r: Option<usize>)
    ensures
        match r {
            Some(i) => i < known@.len() && known_target(tviews(known@), id@) == Some(tview(known@[i as int])),
            None => known_target(tviews(known@), id@) == None::<TargetSpec>,
        },
{
    let ghost ids = target_ids(tviews(known@));
    let mut i: usize = 0;
    while i < known.len()
        invariant
            ids == target_ids(tviews(known@)),
            ids.len() == known@.len(),
            i <= known@.len(),
            forall|j: int| 0 <= j < i ==> ids[j] != id@,
        decreases known@.len() - i,
    {
        assert(ids[i as int] == known@[i as int].id@);
        if known[i].id == *id {
            assert(first_at(ids, id@, i as int));
            proof {
                lemma_first_unique(ids, id@, i as int, choose|j: int| first_at(ids, id@, j));
            }
            return Some(i);
        }
        i = i + 1;
    }
    None
}

/// The source range of the first of `known` with id `id`.
pub open spec fn known_range(known: Seq<TargetSpec>, id: Seq<char>) -> Option<PassDebugSourceRange> {
    match known_target(known, id) {
        Some(t) => t.source_range,
        None => None,
    }
}

/// The source range of the first of `known` with id `id`.
fn known_source_range(known: &Vec<PassDebugDependencyTarget>, id: &String) -> (r: Option<PassDebugSourceRange>)
    ensures
        r == known_range(tviews(known@), id@),
{
    match find_known(known, id) {
        Some(i) => known[i].source_range,
        None => None,
    }
}

// ---------------------------------------------------------------------------
// Stores: the stored target and the source range of its name
// ---------------------------------------------------------------------------

/// The target a pointer expression stores into: the argument, global or
/// local at the root of a chain of accesses, following at most `fuel` links.
pub open spec fn pointer_target(scope: Seq<char>, exprs: Seq<IrExpression>, h: usize, fuel: nat) -> Option<
    Seq<char>,
>
    decreases fuel,
{
    if fuel == 0 || h >= exprs.len() {
        None
    } else {
        match exprs[h as int].kind {
            IrExprKind::Leaf { leaf, .. } => match leaf {
                IrExprLeaf::FunctionArgument(i) => Some(spec_scoped_id(scope, "arg"@, i as nat)),
                IrExprLeaf::GlobalVariable(g) => Some(spec_global_id(g as nat)),
                IrExprLeaf::LocalVariable(l) => Some(spec_scoped_id(scope, "local"@, l as nat)),
                _ => None,
            },
            IrExprKind::Operands { op } => match op {
                IrExprOp::Access { base, .. } => pointer_target(scope, exprs, base, (fuel - 1) as nat),
                IrExprOp::AccessIndex { base, .. } => pointer_target(scope, exprs, base, (fuel - 1) as nat),
                _ => None,
            },
            _ => None,
        }
    }
}

/// The target that pointer `h` stores into. An arena in which every
/// operand comes before its user, as the front end builds them, never has a
/// chain longer than the arena.
pub open spec fn resolved_target(scope: Seq<char>, exprs: Seq<IrExpression>, h: usize) -> Option<Seq<char>> {
    pointer_target(scope, exprs, h, exprs.len() as nat)
}

pub open spec fn opt_string(o: Option<String>) -> Option<Seq<char>> {
    match o {
        Some(s) => Some(s@),
        None => None,
    }
}

pub fn resolve_pointer_target(scope: &str, exprs: &Vec<IrExpression>, pointer: usize) -> (r: Option<String>)
    ensures
        opt_string(r) == resolved_target(scope@, exprs@, pointer),
{
    let mut cur = pointer;
    let mut fuel = exprs.len();
    while fuel > 0 && cur < exprs.len()
        invariant
            pointer_target(scope@, exprs@, cur, fuel as nat) == resolved_target(scope@, exprs@, pointer),
        decreases fuel,
    {
        match &exprs[cur].kind {
            IrExprKind::Leaf { leaf, .. } => {
                return match leaf {
                    IrExprLeaf::FunctionArgument(i) => Some(scoped_id(scope, "arg", *i as usize)),
                    IrExprLeaf::GlobalVariable(g) => Some(global_id(*g)),
                    IrExprLeaf::LocalVariable(l) => Some(scoped_id(scope, "local", *l)),
                    _ => None,
                };
            },
            IrExprKind::Operands { op } => {
                match op {
                    IrExprOp::Access { base, .. } => {
                        cur = *base;
                    },
                    IrExprOp::AccessIndex { base, .. } => {
                        cur = *base;
                    },
                    _ => {
                        return None;
                    },
                }
            },
            _ => {
                return None;
            },
        }
        fuel = fuel - 1;
    }
    None
}

/// The source range of expression `h`, when it has a span.
pub open spec fn expr_range(b: Seq<u8>, exprs: Seq<IrExpression>, h: usize) -> Option<PassDebugSourceRange> {
    if h < exprs.len() {
        match exprs[h as int].span {
            Some(s) => spec_source_range(b, s.start as int, s.end as int),
            None => None,
        }
    } else {
        None
    }
}

fn expr_range_exec(source: &str, exprs: &Vec<IrExpression>, h: usize) -> (r: Option<PassDebugSourceRange>)
    ensures
        r == expr_range(source.spec_bytes(), exprs@, h),
{
    if h < exprs.len() {
        match exprs[h].span {
            Some(s) => source_range_from_byte_range(source, core::ops::Range { start: s.start, end: s.end }),
            None => None,
        }
    } else {
        None
    }
}

fn line_start_exec(bytes: &[u8], i: usize) -> (r: usize)
    requires
        i <= bytes@.len(),
    ensures
        r == line_start(bytes@, i as int),
{
    let mut start = i;
    while start > 0 && bytes[start - 1] != 10u8
        invariant
            start <= i <= bytes@.len(),
            line_start(bytes@, i as int) == line_start(bytes@, start as int),
        decreases start,
    {
        start = start - 1;
    }
    start
}

fn line_end_exec(bytes: &[u8], i: usize) -> (r: usize)
    requires
        i <= bytes@.len(),
    ensures
        r == line_end(bytes@, i as int),
{
    let mut end = i;
    while end < bytes.len() && bytes[end] != 10u8
        invariant
            i <= end <= bytes@.len(),
            line_end(bytes@, i as int) == line_end(bytes@, end as int),
        decreases bytes@.len() - end,
    {
        end = end + 1;
    }
    end
}

pub open spec fn or_range(a: Option<PassDebugSourceRange>, b: Option<PassDebugSourceRange>) -> Option<
    PassDebugSourceRange,
> {
    match a {
        Some(r) => Some(r),
        None => b,
    }
}

/// Where `name` is written on the line of the stored value: its last
/// occurrence between the start of that line (not before the function) and
/// the value, else its first occurrence on that line.
pub open spec fn name_near_value(
    b: Seq<u8>,
    scope: Seq<char>,
    exprs: Seq<IrExpression>,
    value: usize,
    name: Seq<char>,
) -> Option<PassDebugSourceRange> {
    match expr_range(b, exprs, value) {
        None => None,
        Some(vr) => {
            let vs = vr.start_byte as int;
            let fstart = match spec_function_range(b, encode_utf8(scope)) {
                Some(r) => r.0,
                None => 0,
            };
            let ls = if line_start(b, vs) > fstart {
                line_start(b, vs)
            } else {
                fstart
            };
            or_range(
                spec_last_word_range(b, encode_utf8(name), ls, vs),
                spec_occurrence_range(b, encode_utf8(name), ls, line_end(b, vs), 0, false),
            )
        },
    }
}

fn name_near_value_exec(source: &str, scope: &str, exprs: &Vec<IrExpression>, value: usize, name: &str) -> (r:
    Option<PassDebugSourceRange>)
    ensures
        r == name_near_value(source.spec_bytes(), scope@, exprs@, value, name@),
{
    let vr = match expr_range_exec(source, exprs, value) {
        Some(r) => r,
        None => {
            return None;
        },
    };
    let bytes = source.as_bytes();
    let vs = vr.start_byte;
    let fstart = match find_function_range(source, scope) {
        Some(r) => r.start,
        None => 0,
    };
    let ls0 = line_start_exec(bytes, vs);
    let ls = if ls0 > fstart {
        ls0
    } else {
        fstart
    };
    match find_last_identifier_range(source, core::ops::Range { start: ls, end: vs }, name) {
        Some(r) => Some(r),
        None => {
            let le = line_end_exec(bytes, vs);
            find_identifier_range(source, core::ops::Range { start: ls, end: le }, name)
        },
    }
}

/// `store_lhs_source_range`: the range of the pointer expression, else the
/// stored target's name near the value.
pub open spec fn store_lhs_range(
    b: Seq<u8>,
    scope: Seq<char>,
    exprs: Seq<IrExpression>,
    known: Seq<TargetSpec>,
    pointer: usize,
    value: usize,
    tid: Seq<char>,
) -> Option<PassDebugSourceRange> {
    or_range(
        expr_range(b, exprs, pointer),
        match known_target(known, tid) {
            Some(t) => name_near_value(b, scope, exprs, value, t.name),
            None => None,
        },
    )
}

pub fn store_lhs_source_range(
    source: &str,
    scope: &str,
    exprs: &Vec<IrExpression>,
    known: &Vec<PassDebugDependencyTarget>,
    pointer: usize,
    value: usize,
    tid: &String,
) -> (r: Option<PassDebugSourceRange>)
    ensures
        r == store_lhs_range(source.spec_bytes(), scope@, exprs@, tviews(known@), pointer, value, tid@),
{
    match expr_range_exec(source, exprs, pointer) {
        Some(r) => Some(r),
        None => match find_known(known, tid) {
            Some(i) => name_near_value_exec(source, scope, exprs, value, known[i].name.as_str()),
            None => None,
        },
    }
}

/// `next_store_lhs_source_range`: the next store-site occurrence of the
/// target's name in the function, by the number of stores into the target
/// looked up so far, and the counts after this one.
pub open spec fn next_store_range(
    b: Seq<u8>,
    scope: Seq<char>,
    known: Seq<TargetSpec>,
    counts: Seq<(Seq<char>, usize)>,
    tid: Seq<char>,
) -> (Option<PassDebugSourceRange>, Seq<(Seq<char>, usize)>) {
    match known_target(known, tid) {
        None => (None, counts),
        Some(t) => {
            let k = count_of(counts, tid);
            (
                spec_store_lhs_range(b, encode_utf8(scope), encode_utf8(t.name), k as nat),
                put(counts, tid, bump(k)),
            )
        },
    }
}

pub fn next_store_lhs_source_range(
    source: &str,
    scope: &str,
    known: &Vec<PassDebugDependencyTarget>,
    counts: &mut Vec<(String, usize)>,
    tid: &String,
) -> (r: Option<PassDebugSourceRange>)
    ensures
        (r, flow_counts(final(counts)@)) == next_store_range(
            source.spec_bytes(),
            scope@,
            tviews(known@),
            flow_counts(old(counts)@),
            tid@,
        ),
{
    match find_known(known, tid) {
        Some(i) => {
            let k = take_count(counts, tid);
            find_store_lhs_identifier_range(source, scope, known[i].name.as_str(), k)
        },
        None => None,
    }
}

// ---------------------------------------------------------------------------
// The walk of a function body
// ---------------------------------------------------------------------------

/// What the walk of one function reads: the source, the function's scope
/// and expressions, and the targets collected so far.
pub struct FlowCtx {
    pub b: Seq<u8>,
    pub scope: Seq<char>,
    pub exprs: Seq<IrExpression>,
    pub known: Seq<TargetSpec>,
}

pub open spec fn ctx_of(
    source: &str,
    scope: &String,
    exprs: &Vec<IrExpression>,
    known: &Vec<PassDebugDependencyTarget>,
) -> FlowCtx {
    FlowCtx { b: source.spec_bytes(), scope: scope@, exprs: exprs@, known: tviews(known@) }
}

pub open spec fn control(label: Seq<char>, expr: usize, env: Map<Seq<char>, Seq<usize>>) -> ControlView {
    ControlView { label, expr, env }
}

/// `a` and `b` merged in order into an empty environment.
pub open spec fn merge_two(a: Map<Seq<char>, Seq<usize>>, b: Map<Seq<char>, Seq<usize>>) -> Map<
    Seq<char>,
    Seq<usize>,
> {
    merged_env(merged_env(Map::empty(), a), b)
}

/// The expressions `[lo, hi)` of `scope` recorded, in order, with `env`
/// where none is recorded yet.
pub open spec fn emit_envs(
    t: Seq<((Seq<char>, usize), Map<Seq<char>, Seq<usize>>)>,
    scope: Seq<char>,
    lo: int,
    hi: int,
    env: Map<Seq<char>, Seq<usize>>,
) -> Seq<((Seq<char>, usize), Map<Seq<char>, Seq<usize>>)>
    decreases hi - lo,
{
    if hi <= lo {
        t
    } else {
        put_new(emit_envs(t, scope, lo, hi - 1, env), (scope, (hi - 1) as usize), env)
    }
}

/// A store of `value` through `pointer`: the value's environment is
/// recorded; when the pointer's target is known, a definition site is added
/// and becomes the only definition of the target that reaches what follows.
pub open spec fn store_step(
    c: FlowCtx,
    pointer: usize,
    value: usize,
    controls: Seq<ControlView>,
    env: Map<Seq<char>, Seq<usize>>,
    st: FlowView,
) -> (FlowView, Map<Seq<char>, Seq<usize>>) {
    let expr_envs = put(st.expr_envs, (c.scope, value), env);
    match resolved_target(c.scope, c.exprs, pointer) {
        None => (FlowView { expr_envs, ..st }, env),
        Some(tid) => {
            let fallback = next_store_range(c.b, c.scope, c.known, st.counts, tid);
            let site = SiteView {
                target_id: tid,
                scope: c.scope,
                value: Some(value),
                controls,
                env,
                source_range: or_range(
                    store_lhs_range(c.b, c.scope, c.exprs, c.known, pointer, value, tid),
                    fallback.0,
                ),
            };
            (
                FlowView { defs: st.defs.push(site), expr_envs, counts: fallback.1, ..st },
                env.insert(tid, seq![st.defs.len() as usize]),
            )
        },
    }
}

/// The walk over statement `s`, from environment `env` under `controls`:
/// what is recorded, and the environment after `s`.
pub open spec fn flow_stmt(
    c: FlowCtx,
    s: IrStatement,
    controls: Seq<ControlView>,
    env: Map<Seq<char>, Seq<usize>>,
    st: FlowView,
) -> (FlowView, Map<Seq<char>, Seq<usize>>)
    decreases s, 1int,
{
    match s {
        IrStatement::Emit { start, end } => (
            FlowView { expr_envs: emit_envs(st.expr_envs, c.scope, start as int, end as int, env), ..st },
            env,
        ),
        IrStatement::Block { body } => flow_block(c, body@, body@.len() as int, controls, env, st),
        IrStatement::If { condition, accept, reject } => {
            let inner = controls.push(control("[condition] if"@, condition, env));
            let a = flow_block(c, accept@, accept@.len() as int, inner, env, st);
            let r = flow_block(c, reject@, reject@.len() as int, inner, env, a.0);
            (r.0, merge_two(a.1, r.1))
        },
        IrStatement::Switch { selector, cases } => {
            let inner = controls.push(control("[condition] switch selector"@, selector, env));
            flow_cases(c, selector, cases@, cases@.len() as int, inner, env, st)
        },
        IrStatement::Loop { body, continuing, break_if } => {
            let inner = match break_if {
                Some(e) => controls.push(control("[condition] loop break_if"@, e, env)),
                None => controls,
            };
            let l = flow_block(c, body@, body@.len() as int, inner, env, st);
            let k = flow_block(c, continuing@, continuing@.len() as int, inner, l.1, l.0);
            (k.0, merge_two(env, k.1))
        },
        IrStatement::Return { value } => (
            FlowView {
                returns: st.returns.push(ReturnView { scope: c.scope, value, controls, env }),
                ..st
            },
            env,
        ),
        IrStatement::Call { function, arguments, result } => match result {
            Some(r) => (
                FlowView {
                    expr_envs: put(st.expr_envs, (c.scope, r), env),
                    calls: put(st.calls, (c.scope, r), CallView { function, arguments: arguments@ }),
                    ..st
                },
                env,
            ),
            None => (st, env),
        },
        IrStatement::Operands { op } => match op {
            IrStmtOp::Store { pointer, value } => store_step(c, pointer, value, controls, env, st),
            _ => (st, env),
        },
        _ => (st, env),
    }
}

/// The walk over the first `k` statements of `b`.
pub open spec fn flow_block(
    c: FlowCtx,
    b: Seq<IrStatement>,
    k: int,
    controls: Seq<ControlView>,
    env: Map<Seq<char>, Seq<usize>>,
    st: FlowView,
) -> (FlowView, Map<Seq<char>, Seq<usize>>)
    decreases b, 0int, k,
{
    if k <= 0 {
        (st, env)
    } else {
        let prev = flow_block(c, b, k - 1, controls, env, st);
        if k - 1 < b.len() {
            flow_stmt(c, b[k - 1], controls, prev.1, prev.0)
        } else {
            prev
        }
    }
}

/// The walk over the first `k` cases of a switch on `selector`: each case
/// starts from `before` under its own condition, and the environments after
/// the cases are merged into `before`.
pub open spec fn flow_cases(
    c: FlowCtx,
    selector: usize,
    cs: Seq<IrSwitchCase>,
    k: int,
    inner: Seq<ControlView>,
    before: Map<Seq<char>, Seq<usize>>,
    st: FlowView,
) -> (FlowView, Map<Seq<char>, Seq<usize>>)
    decreases cs, 0int, k,
{
    if k <= 0 {
        (st, before)
    } else {
        let prev = flow_cases(c, selector, cs, k - 1, inner, before, st);
        if k - 1 < cs.len() {
            let case_controls = inner.push(control("[condition] case "@ + cs[k - 1].value@, selector, before));
            let r = flow_block(c, cs[k - 1].body@, cs[k - 1].body@.len() as int, case_controls, before, prev.0);
            (r.0, merged_env(prev.1, r.1))
        } else {
            prev
        }
    }
}

fn copy_controls(cs: &Vec<ControlDependency>) -> (r: Vec<ControlDependency>)
    ensures
        controls_view(r@) == controls_view(cs@),
{
    let mut out: Vec<ControlDependency> = Vec::new();
    let mut i: usize = 0;
    while i < cs.len()
        invariant
            i <= cs@.len(),
            controls_view(out@) == controls_view(cs@).take(i as int),
        decreases cs@.len() - i,
    {
        let c = &cs[i];
        let copy = ControlDependency { label: c.label.clone(), expr: c.expr, env: copy_env(&c.env) };
        let ghost before = out@;
        out.push(copy);
        assert(controls_view(out@) =~= controls_view(before).push(control_view(cs@[i as int])));
        assert(controls_view(cs@).take(i + 1) =~= controls_view(cs@).take(i as int).push(
            control_view(cs@[i as int]),
        ));
        i = i + 1;
    }
    assert(controls_view(cs@).take(i as int) =~= controls_view(cs@));
    out
}

fn store_dependency(
    source: &str,
    scope: &String,
    exprs: &Vec<IrExpression>,
    known: &Vec<PassDebugDependencyTarget>,
    pointer: usize,
    value: usize,
    controls: &Vec<ControlDependency>,
    env: &mut DefinitionEnv,
    flow: &mut DefinitionFlow,
)
    requires
        env_ok(*old(env)),
    ensures
        env_ok(*final(env)),
        (flow_view(*final(flow)), env_view(*final(env))) == store_step(
            ctx_of(source, scope, exprs, known),
            pointer,
            value,
            controls_view(controls@),
            env_view(*old(env)),
            flow_view(*old(flow)),
        ),
{
    let ghost st = flow_view(*flow);
    let ghost e0 = env_view(*env);
    let ghost c = ctx_of(source, scope, exprs, known);
    record_env(&mut flow.expression_envs, scope, value, env);
    match resolve_pointer_target(scope.as_str(), exprs, pointer) {
        None => {
            assert(flow_view(*flow) == store_step(c, pointer, value, controls_view(controls@), e0, st).0);
        },
        Some(tid) => {
            let fallback = next_store_lhs_source_range(source, scope.as_str(), known, &mut flow.store_counts, &tid);
            let range = match store_lhs_source_range(source, scope.as_str(), exprs, known, pointer, value, &tid) {
                Some(r) => Some(r),
                None => fallback,
            };
            let id = flow.definitions.len();
            let site = DefinitionSite {
                target_id: tid.clone(),
                scope: scope.clone(),
                value: Some(value),
                controls: copy_controls(controls),
                env: copy_env(env),
                source_range: range,
            };
            let ghost defs0 = flow.definitions@;
            flow.definitions.push(site);
            assert(flow.definitions@.map_values(|s: DefinitionSite| site_view(s)) =~= defs0.map_values(
                |s: DefinitionSite| site_view(s),
            ).push(site_view(site)));
            let mut ids: Vec<usize> = Vec::new();
            ids.push(id);
            assert(ids@ =~= seq![id]);
            set_definitions(env, &tid, ids);
            assert(flow_view(*flow) == store_step(c, pointer, value, controls_view(controls@), e0, st).0);
        },
    }
}

fn record_emitted(scope: &String, start: usize, end: usize, env: &DefinitionEnv, flow: &mut DefinitionFlow)
    ensures
        flow_view(*final(flow)) == (FlowView {
            expr_envs: emit_envs(flow_view(*old(flow)).expr_envs, scope@, start as int, end as int, env_view(*env)),
            ..flow_view(*old(flow))
        }),
{
    let ghost t0 = flow_view(*flow).expr_envs;
    let mut h = start;
    while h < end
        invariant
            start <= h <= end || (h == start && end < start),
            flow_keys_env(flow.expression_envs@) == emit_envs(t0, scope@, start as int, h as int, env_view(*env)),
            flow.definitions@ == old(flow).definitions@,
            flow.returns@ == old(flow).returns@,
            flow.calls@ == old(flow).calls@,
            flow.store_counts@ == old(flow).store_counts@,
        decreases end - h,
    {
        record_first_env(&mut flow.expression_envs, scope, h, env);
        h = h + 1;
    }
}

fn record_return(
    scope: &String,
    value: Option<usize>,
    controls: &Vec<ControlDependency>,
    env: &DefinitionEnv,
    flow: &mut DefinitionFlow,
)
    ensures
        flow_view(*final(flow)) == (FlowView {
            returns: flow_view(*old(flow)).returns.push(
                ReturnView { scope: scope@, value, controls: controls_view(controls@), env: env_view(*env) },
            ),
            ..flow_view(*old(flow))
        }),
{
    let r = ReturnDependency { scope: scope.clone(), value, controls: copy_controls(controls), env: copy_env(env) };
    let ghost before = flow.returns@;
    flow.returns.push(r);
    assert(flow.returns@.map_values(|r: ReturnDependency| return_view(r)) =~= before.map_values(
        |r: ReturnDependency| return_view(r),
    ).push(return_view(r)));
}

fn record_call_result(
    scope: &String,
    function: usize,
    arguments: &Vec<usize>,
    result: usize,
    env: &DefinitionEnv,
    flow: &mut DefinitionFlow,
)
    ensures
        flow_view(*final(flow)) == (FlowView {
            expr_envs: put(flow_view(*old(flow)).expr_envs, (scope@, result), env_view(*env)),
            calls: put(flow_view(*old(flow)).calls, (scope@, result), CallView { function, arguments: arguments@ }),
            ..flow_view(*old(flow))
        }),
{
    record_env(&mut flow.expression_envs, scope, result, env);
    record_call(&mut flow.calls, scope, result, function, arguments);
}

/// Walks statement `s` from `env` under `controls`; `env` becomes the
/// environment after `s`.
pub fn collect_statement_dependencies(
    source: &str,
    scope: &String,
    exprs: &Vec<IrExpression>,
    known: &Vec<PassDebugDependencyTarget>,
    s: &IrStatement,
    controls: &mut Vec<ControlDependency>,
    env: &mut DefinitionEnv,
    flow: &mut DefinitionFlow,
)
    requires
        env_ok(*old(env)),
    ensures
        env_ok(*final(env)),
        final(controls)@ == old(controls)@,
        (flow_view(*final(flow)), env_view(*final(env))) == flow_stmt(
            ctx_of(source, scope, exprs, known),
            *s,
            controls_view(old(controls)@),
            env_view(*old(env)),
            flow_view(*old(flow)),
        ),
    decreases *s, 1int,
{
    match s {
        IrStatement::Emit { start, end } => {
            record_emitted(scope, *start, *end, env, flow);
        },
        IrStatement::Block { body } => {
            collect_block_dependencies(source, scope, exprs, known, body, controls, env, flow);
        },
        IrStatement::If { condition, accept, reject } => {
            let ghost cv = controls_view(controls@);
            let before = copy_env(env);
            let ctl = ControlDependency { label: owned("[condition] if"), expr: *condition, env: copy_env(&before) };
            controls.push(ctl);
            assert(controls_view(controls@) =~= cv.push(control("[condition] if"@, *condition, env_view(before))));
            let mut accept_env = copy_env(&before);
            collect_block_dependencies(source, scope, exprs, known, accept, controls, &mut accept_env, flow);
            let mut reject_env = before;
            collect_block_dependencies(source, scope, exprs, known, reject, controls, &mut reject_env, flow);
            let mut merged = DefinitionEnv { entries: Vec::new() };
            assert(env_map(merged.entries@) =~= Map::<Seq<char>, Seq<usize>>::empty());
            merge_definition_env_into(&mut merged, accept_env);
            merge_definition_env_into(&mut merged, reject_env);
            *env = merged;
            controls.pop();
        },
        IrStatement::Switch { selector, cases } => {
            let ghost cv = controls_view(controls@);
            let before = copy_env(env);
            let ctl = ControlDependency {
                label: owned("[condition] switch selector"),
                expr: *selector,
                env: copy_env(&before),
            };
            controls.push(ctl);
            assert(controls_view(controls@) =~= cv.push(
                control("[condition] switch selector"@, *selector, env_view(before)),
            ));
            collect_case_dependencies(source, scope, exprs, known, *selector, cases, &before, controls, env, flow);
            controls.pop();
        },
        IrStatement::Loop { body, continuing, break_if } => {
            let ghost cv = controls_view(controls@);
            let before = copy_env(env);
            match break_if {
                Some(e) => {
                    let ctl = ControlDependency {
                        label: owned("[condition] loop break_if"),
                        expr: *e,
                        env: copy_env(&before),
                    };
                    controls.push(ctl);
                    assert(controls_view(controls@) =~= cv.push(
                        control("[condition] loop break_if"@, *e, env_view(before)),
                    ));
                },
                None => {},
            }
            let mut loop_env = copy_env(&before);
            collect_block_dependencies(source, scope, exprs, known, body, controls, &mut loop_env, flow);
            collect_block_dependencies(source, scope, exprs, known, continuing, controls, &mut loop_env, flow);
            let mut merged = DefinitionEnv { entries: Vec::new() };
            assert(env_map(merged.entries@) =~= Map::<Seq<char>, Seq<usize>>::empty());
            merge_definition_env_into(&mut merged, before);
            merge_definition_env_into(&mut merged, loop_env);
            *env = merged;
            if break_if.is_some() {
                controls.pop();
            }
        },
        IrStatement::Return { value } => {
            record_return(scope, *value, controls, env, flow);
        },
        IrStatement::Call { function, arguments, result } => {
            match result {
                Some(r) => {
                    record_call_result(scope, *function, arguments, *r, env, flow);
                },
                None => {},
            }
        },
        IrStatement::Operands { op } => {
            match op {
                IrStmtOp::Store { pointer, value } => {
                    store_dependency(source, scope, exprs, known, *pointer, *value, controls, env, flow);
                },
                _ => {},
            }
        },
        IrStatement::Leaf { .. } => {},
    }
}

/// `collect_block_dependencies`: walks the statements of `b` in order.
pub fn collect_block_dependencies(
    source: &str,
    scope: &String,
    exprs: &Vec<IrExpression>,
    known: &Vec<PassDebugDependencyTarget>,
    b: &Vec<IrStatement>,
    controls: &mut Vec<ControlDependency>,
    env: &mut DefinitionEnv,
    flow: &mut DefinitionFlow,
)
    requires
        env_ok(*old(env)),
    ensures
        env_ok(*final(env)),
        final(controls)@ == old(controls)@,
        (flow_view(*final(flow)), env_view(*final(env))) == flow_block(
            ctx_of(source, scope, exprs, known),
            b@,
            b@.len() as int,
            controls_view(old(controls)@),
            env_view(*old(env)),
            flow_view(*old(flow)),
        ),
    decreases b@, 0int,
{
    let ghost c = ctx_of(source, scope, exprs, known);
    let ghost cv = controls_view(controls@);
    let ghost e0 = env_view(*env);
    let ghost st0 = flow_view(*flow);
    let ghost c0 = controls@;
    let mut i: usize = 0;
    while i < b.len()
        invariant
            i <= b@.len(),
            c == ctx_of(source, scope, exprs, known),
            controls@ == c0,
            cv == controls_view(c0),
            env_ok(*env),
            (flow_view(*flow), env_view(*env)) == flow_block(c, b@, i as int, cv, e0, st0),
        decreases b@.len() - i,
    {
        collect_statement_dependencies(source, scope, exprs, known, &b[i], controls, env, flow);
        i = i + 1;
    }
}

/// Walks the cases of a switch on `selector`, each from `before`; `env`
/// becomes `before` merged with the environment after each case.
fn collect_case_dependencies(
    source: &str,
    scope: &String,
    exprs: &Vec<IrExpression>,
    known: &Vec<PassDebugDependencyTarget>,
    selector: usize,
    cs: &Vec<IrSwitchCase>,
    before: &DefinitionEnv,
    controls: &mut Vec<ControlDependency>,
    env: &mut DefinitionEnv,
    flow: &mut DefinitionFlow,
)
    requires
        env_ok(*before),
        env_view(*before) == env_view(*old(env)),
    ensures
        env_ok(*final(env)),
        final(controls)@ == old(controls)@,
        (flow_view(*final(flow)), env_view(*final(env))) == flow_cases(
            ctx_of(source, scope, exprs, known),
            selector,
            cs@,
            cs@.len() as int,
            controls_view(old(controls)@),
            env_view(*before),
            flow_view(*old(flow)),
        ),
    decreases cs@, 0int,
{
    let ghost c = ctx_of(source, scope, exprs, known);
    let ghost cv = controls_view(controls@);
    let ghost st0 = flow_view(*flow);
    let ghost c0 = controls@;
    let mut merged = copy_env(before);
    let mut i: usize = 0;
    while i < cs.len()
        invariant
            i <= cs@.len(),
            c == ctx_of(source, scope, exprs, known),
            controls@ == c0,
            cv == controls_view(c0),
            env_ok(*before),
            env_ok(merged),
            (flow_view(*flow), env_view(merged)) == flow_cases(c, selector, cs@, i as int, cv, env_view(*before), st0),
        decreases cs@.len() - i,
    {
        let case = &cs[i];
        let ctl = ControlDependency {
            label: concat("[condition] case ", case.value.as_str()),
            expr: selector,
            env: copy_env(before),
        };
        controls.push(ctl);
        assert(controls_view(controls@) =~= cv.push(
            control("[condition] case "@ + case.value@, selector, env_view(*before)),
        ));
        let mut case_env = copy_env(before);
        collect_block_dependencies(source, scope, exprs, known, &case.body, controls, &mut case_env, flow);
        merge_definition_env_into(&mut merged, case_env);
        controls.pop();
        i = i + 1;
    }
    *env = merged;
}

// ---------------------------------------------------------------------------
// Functions and the module
// ---------------------------------------------------------------------------

/// The initializers of the first `k` locals, in order: each is a definition
/// site of its local, reached by the initializers before it.
pub open spec fn initial_env(c: FlowCtx, locals: Seq<IrLocal>, k: int, st: FlowView) -> (
    FlowView,
    Map<Seq<char>, Seq<usize>>,
)
    decreases k,
{
    if k <= 0 {
        (st, Map::empty())
    } else {
        let prev = initial_env(c, locals, k - 1, st);
        match locals[k - 1].init {
            None => prev,
            Some(init) => {
                let tid = spec_scoped_id(c.scope, "local"@, (k - 1) as nat);
                let site = SiteView {
                    target_id: tid,
                    scope: c.scope,
                    value: Some(init),
                    controls: seq![],
                    env: prev.1,
                    source_range: known_range(c.known, tid),
                };
                (
                    FlowView { defs: prev.0.defs.push(site), ..prev.0 },
                    prev.1.insert(tid, seq![prev.0.defs.len() as usize]),
                )
            },
        }
    }
}

/// The walk of function `f`: its locals' initializers, then its body with
/// no governing condition. The environment is the one at the end of the body.
pub open spec fn flow_function(c: FlowCtx, f: IrFunction, st: FlowView) -> (FlowView, Map<Seq<char>, Seq<usize>>) {
    let i = initial_env(c, f.locals@, f.locals@.len() as int, st);
    flow_block(c, f.body@, f.body@.len() as int, seq![], i.1, i.0)
}

/// `initial_function_definition_env`.
pub fn initial_function_definition_env(
    source: &str,
    scope: &String,
    f: &IrFunction,
    known: &Vec<PassDebugDependencyTarget>,
    flow: &mut DefinitionFlow,
) -> (r: DefinitionEnv)
    ensures
        env_ok(r),
        (flow_view(*final(flow)), env_view(r)) == initial_env(
            ctx_of(source, scope, &f.expressions, known),
            f.locals@,
            f.locals@.len() as int,
            flow_view(*old(flow)),
        ),
{
    let ghost c = ctx_of(source, scope, &f.expressions, known);
    let ghost st0 = flow_view(*flow);
    let mut env = DefinitionEnv { entries: Vec::new() };
    assert(env_map(env.entries@) =~= Map::<Seq<char>, Seq<usize>>::empty());
    let mut h: usize = 0;
    while h < f.locals.len()
        invariant
            h <= f.locals@.len(),
            c == ctx_of(source, scope, &f.expressions, known),
            env_ok(env),
            (flow_view(*flow), env_view(env)) == initial_env(c, f.locals@, h as int, st0),
        decreases f.locals@.len() - h,
    {
        match f.locals[h].init {
            Some(init) => {
                let tid = scoped_id(scope.as_str(), "local", h);
                let site = DefinitionSite {
                    target_id: tid.clone(),
                    scope: scope.clone(),
                    value: Some(init),
                    controls: Vec::new(),
                    env: copy_env(&env),
                    source_range: known_source_range(known, &tid),
                };
                assert(controls_view(site.controls@) =~= Seq::<ControlView>::empty());
                let id = flow.definitions.len();
                let ghost defs0 = flow.definitions@;
                flow.definitions.push(site);
                assert(flow.definitions@.map_values(|s: DefinitionSite| site_view(s)) =~= defs0.map_values(
                    |s: DefinitionSite| site_view(s),
                ).push(site_view(site)));
                let mut ids: Vec<usize> = Vec::new();
                ids.push(id);
                assert(ids@ =~= seq![id]);
                set_definitions(&mut env, &tid, ids);
            },
            None => {},
        }
        h = h + 1;
    }
    env
}

/// The walk of function `f` of scope `scope`; returns the environment at
/// the end of its body.
pub fn index_function_definitions(
    source: &str,
    scope: &String,
    f: &IrFunction,
    known: &Vec<PassDebugDependencyTarget>,
    flow: &mut DefinitionFlow,
) -> (r: DefinitionEnv)
    ensures
        env_ok(r),
        (flow_view(*final(flow)), env_view(r)) == flow_function(
            ctx_of(source, scope, &f.expressions, known),
            *f,
            flow_view(*old(flow)),
        ),
{
    let mut env = initial_function_definition_env(source, scope, f, known, flow);
    let mut controls: Vec<ControlDependency> = Vec::new();
    assert(controls_view(controls@) =~= Seq::<ControlView>::empty());
    collect_block_dependencies(source, scope, &f.expressions, known, &f.body, &mut controls, &mut env, flow);
    env
}

/// Nothing recorded.
pub open spec fn empty_flow() -> FlowView {
    FlowView { defs: seq![], expr_envs: seq![], returns: seq![], calls: seq![], counts: seq![] }
}

/// The walk of the first `k` entry points, each with the targets of the
/// globals and of the entry points up to it; the environments at the end of
/// their bodies are merged in order.
pub open spec fn entries_flow(b: Seq<u8>, m: ShaderModule, k: int) -> (FlowView, Map<Seq<char>, Seq<usize>>)
    decreases k,
{
    if k <= 0 {
        (empty_flow(), Map::empty())
    } else {
        let prev = entries_flow(b, m, k - 1);
        let e = m.entry_points@[k - 1];
        let known = dedup_targets(spec_globals_targets(b, m) + spec_entries_targets(b, m, k));
        let r = flow_function(
            FlowCtx { b, scope: e.name@, exprs: e.function.expressions@, known },
            e.function,
            prev.0,
        );
        (r.0, merged_env(prev.1, r.1))
    }
}

/// After the entry points, the walk of the first `k` functions likewise.
pub open spec fn functions_flow(b: Seq<u8>, m: ShaderModule, k: int) -> (FlowView, Map<Seq<char>, Seq<usize>>)
    decreases k,
{
    if k <= 0 {
        entries_flow(b, m, m.entry_points@.len() as int)
    } else {
        let prev = functions_flow(b, m, k - 1);
        let f = m.functions@[k - 1];
        let known = dedup_targets(
            spec_globals_targets(b, m) + spec_entries_targets(b, m, m.entry_points@.len() as int)
                + spec_functions_targets(b, m, k),
        );
        let r = flow_function(
            FlowCtx { b, scope: spec_function_scope((k - 1) as nat, f.name), exprs: f.expressions@, known },
            f,
            prev.0,
        );
        (r.0, merged_env(prev.1, r.1))
    }
}

/// The walk of the whole module: what is recorded, and for each target the
/// definitions that reach the end of some function body.
pub open spec fn spec_definition_flow(b: Seq<u8>, m: ShaderModule) -> (FlowView, Map<Seq<char>, Seq<usize>>) {
    functions_flow(b, m, m.functions@.len() as int)
}

/// `index_module` of the dependency analysis: collects the targets of the
/// globals, then of each entry point and function in turn, walking each
/// body with the targets collected so far.
pub fn index_definitions(m: &ShaderModule, source: &str) -> (r: (DefinitionFlow, DefinitionEnv))
    ensures
        env_ok(r.1),
        (flow_view(r.0), env_view(r.1)) == spec_definition_flow(source.spec_bytes(), *m),
{
    let ghost b = source.spec_bytes();
    let mut flow = DefinitionFlow {
        definitions: Vec::new(),
        expression_envs: Vec::new(),
        returns: Vec::new(),
        calls: Vec::new(),
        store_counts: Vec::new(),
    };
    let mut finals = DefinitionEnv { entries: Vec::new() };
    assert(flow_view(flow).defs =~= empty_flow().defs);
    assert(flow_view(flow).expr_envs =~= empty_flow().expr_envs);
    assert(flow_view(flow).returns =~= empty_flow().returns);
    assert(flow_view(flow).calls =~= empty_flow().calls);
    assert(flow_view(flow).counts =~= empty_flow().counts);
    assert(env_map(finals.entries@) =~= Map::<Seq<char>, Seq<usize>>::empty());
    let mut targets: Vec<PassDebugDependencyTarget> = Vec::new();
    let ghost globals = spec_globals_targets(b, *m);
    let ghost mut cur: Seq<TargetSpec> = seq![];
    assert(tviews(targets@) =~= dedup_targets(cur));
    let mut i: usize = 0;
    while i < m.globals.len()
        invariant
            b == source.spec_bytes(),
            globals == spec_globals_targets(b, *m),
            i <= m.globals@.len(),
            cur == globals.take(i as int),
            tviews(targets@) == dedup_targets(cur),
        decreases m.globals@.len() - i,
    {
        let t = global_target(source, i, &m.globals[i]);
        push_unique(&mut targets, t, Ghost(cur));
        proof {
            cur = cur.push(tview(t));
            assert(cur =~= globals.take(i + 1));
        }
        i = i + 1;
    }
    assert(globals.take(i as int) =~= globals);
    let mut k: usize = 0;
    while k < m.entry_points.len()
        invariant
            b == source.spec_bytes(),
            globals == spec_globals_targets(b, *m),
            k <= m.entry_points@.len(),
            cur == globals + spec_entries_targets(b, *m, k as int),
            tviews(targets@) == dedup_targets(cur),
            env_ok(finals),
            (flow_view(flow), env_view(finals)) == entries_flow(b, *m, k as int),
        decreases m.entry_points@.len() - k,
    {
        let e = &m.entry_points[k];
        collect_function_targets(&mut targets, Ghost(cur), source, e.name.as_str(), &e.function);
        proof {
            cur = cur + spec_function_targets(b, e.name@, e.function);
            assert(cur =~= globals + spec_entries_targets(b, *m, k + 1));
        }
        let env = index_function_definitions(source, &e.name, &e.function, &targets, &mut flow);
        merge_definition_env_into(&mut finals, env);
        k = k + 1;
    }
    let ghost entries = spec_entries_targets(b, *m, m.entry_points@.len() as int);
    let mut k: usize = 0;
    while k < m.functions.len()
        invariant
            b == source.spec_bytes(),
            globals == spec_globals_targets(b, *m),
            entries == spec_entries_targets(b, *m, m.entry_points@.len() as int),
            k <= m.functions@.len(),
            cur == globals + entries + spec_functions_targets(b, *m, k as int),
            tviews(targets@) == dedup_targets(cur),
            env_ok(finals),
            (flow_view(flow), env_view(finals)) == functions_flow(b, *m, k as int),
        decreases m.functions@.len() - k,
    {
        let f = &m.functions[k];
        let scope = function_scope(k, &f.name);
        collect_function_targets(&mut targets, Ghost(cur), source, scope.as_str(), f);
        proof {
            cur = cur + spec_function_targets(b, scope@, *f);
            assert(cur =~= globals + entries + spec_functions_targets(b, *m, k + 1));
        }
        let env = index_function_definitions(source, &scope, f, &targets, &mut flow);
        merge_definition_env_into(&mut finals, env);
        k = k + 1;
    }
    (flow, finals)
}

// ---------------------------------------------------------------------------
// Laws
// ---------------------------------------------------------------------------

/// Every definition that `env` lets reach a point is a recorded site of the
/// target it is listed under.
pub open spec fn reaches_ok(env: Map<Seq<char>, Seq<usize>>, defs: Seq<SiteView>) -> bool {
    forall|k: Seq<char>, i: int|
        #![trigger env[k][i]]
        env.dom().contains(k) && 0 <= i < env[k].len() ==> (env[k][i] as int) < defs.len() && defs[env[k][i] as int].target_id
            == k
}

/// Every site is reached only by sites recorded before it, of the targets
/// they are listed under.
pub open spec fn sites_ok(defs: Seq<SiteView>) -> bool {
    forall|d: int| 0 <= d < defs.len() ==> reaches_ok(#[trigger] defs[d].env, defs.take(d))
}

pub open spec fn extends(a: Seq<SiteView>, b: Seq<SiteView>) -> bool {
    a.len() <= b.len() && forall|i: int| 0 <= i < a.len() ==> b[i] == a[i]
}

proof fn lemma_reaches_grow(env: Map<Seq<char>, Seq<usize>>, a: Seq<SiteView>, b: Seq<SiteView>)
    requires
        reaches_ok(env, a),
        extends(a, b),
    ensures
        reaches_ok(env, b),
{
    assert forall|k: Seq<char>, i: int| env.dom().contains(k) && 0 <= i < env[k].len() implies (env[k][i] as int) < b.len()
        && b[env[k][i] as int].target_id == k by {
        assert(a[env[k][i] as int] == b[env[k][i] as int]);
    }
}

proof fn lemma_reaches_merge(a: Map<Seq<char>, Seq<usize>>, b: Map<Seq<char>, Seq<usize>>, defs: Seq<SiteView>)
    requires
        reaches_ok(a, defs),
        reaches_ok(b, defs),
    ensures
        reaches_ok(merged_env(a, b), defs),
{
    let m = merged_env(a, b);
    assert forall|k: Seq<char>, i: int| m.dom().contains(k) && 0 <= i < m[k].len() implies (m[k][i] as int) < defs.len()
        && defs[m[k][i] as int].target_id == k by {
        if b.dom().contains(k) {
            let acc = defs_or_empty(a, k);
            lemma_append_new_from(acc, b[k]);
            assert(m[k] == append_new(acc, b[k]));
            if acc.contains(m[k][i]) {
                let q = choose|q: int| 0 <= q < acc.len() && acc[q] == m[k][i];
                assert(a.dom().contains(k) && a[k][q] == m[k][i]);
            } else {
                let q = choose|q: int| 0 <= q < b[k].len() && b[k][q] == m[k][i];
                assert(b[k][q] == m[k][i]);
            }
        } else {
            assert(m[k] == a[k]);
        }
    }
}

proof fn lemma_reaches_empty(defs: Seq<SiteView>)
    ensures
        reaches_ok(Map::empty(), defs),
{
}

/// Recording a new site of `tid` and making it the only definition of `tid`
/// keeps the environment and the sites well formed.
proof fn lemma_reaches_define(env: Map<Seq<char>, Seq<usize>>, defs: Seq<SiteView>, site: SiteView)
    requires
        reaches_ok(env, defs),
        sites_ok(defs),
        site.env == env,
        defs.len() < usize::MAX,
    ensures
        reaches_ok(env.insert(site.target_id, seq![defs.len() as usize]), defs.push(site)),
        sites_ok(defs.push(site)),
        extends(defs, defs.push(site)),
{
    let d2 = defs.push(site);
    let e2 = env.insert(site.target_id, seq![defs.len() as usize]);
    lemma_reaches_grow(env, defs, d2);
    assert forall|k: Seq<char>, i: int| e2.dom().contains(k) && 0 <= i < e2[k].len() implies (e2[k][i] as int) < d2.len()
        && d2[e2[k][i] as int].target_id == k by {
        if k != site.target_id {
            assert(e2[k] == env[k]);
            assert((env[k][i] as int) < d2.len() && d2[env[k][i] as int].target_id == k);
        } else {
            assert(e2[k] == seq![defs.len() as usize]);
            assert(e2[k][i] == defs.len());
            assert(d2[defs.len() as int] == site);
        }
    }
    assert forall|d: int| 0 <= d < d2.len() implies reaches_ok(#[trigger] d2[d].env, d2.take(d)) by {
        if d < defs.len() {
            assert(d2.take(d) =~= defs.take(d));
            assert(d2[d] == defs[d]);
        } else {
            assert(d2.take(d) =~= defs);
        }
    }
}

proof fn lemma_store_ok(
    c: FlowCtx,
    pointer: usize,
    value: usize,
    controls: Seq<ControlView>,
    env: Map<Seq<char>, Seq<usize>>,
    st: FlowView,
)
    requires
        reaches_ok(env, st.defs),
        sites_ok(st.defs),
        store_step(c, pointer, value, controls, env, st).0.defs.len() <= usize::MAX,
    ensures
        reaches_ok(store_step(c, pointer, value, controls, env, st).1, store_step(c, pointer, value, controls, env, st).0.defs),
        sites_ok(store_step(c, pointer, value, controls, env, st).0.defs),
{
    let r = store_step(c, pointer, value, controls, env, st);
    match resolved_target(c.scope, c.exprs, pointer) {
        None => {},
        Some(tid) => {
            let site = r.0.defs.last();
            assert(r.0.defs == st.defs.push(site));
            lemma_reaches_define(env, st.defs, site);
        },
    }
}

/// Walking a statement only appends definition sites.
pub proof fn lemma_stmt_flow_extends(
    c: FlowCtx,
    s: IrStatement,
    controls: Seq<ControlView>,
    env: Map<Seq<char>, Seq<usize>>,
    st: FlowView,
)
    ensures
        extends(st.defs, flow_stmt(c, s, controls, env, st).0.defs),
    decreases s, 1int,
{
    match s {
        IrStatement::Block { body } => {
            lemma_block_flow_extends(c, body@, body@.len() as int, controls, env, st);
        },
        IrStatement::If { condition, accept, reject } => {
            let inner = controls.push(control("[condition] if"@, condition, env));
            let a = flow_block(c, accept@, accept@.len() as int, inner, env, st);
            lemma_block_flow_extends(c, accept@, accept@.len() as int, inner, env, st);
            lemma_block_flow_extends(c, reject@, reject@.len() as int, inner, env, a.0);
        },
        IrStatement::Switch { selector, cases } => {
            let inner = controls.push(control("[condition] switch selector"@, selector, env));
            lemma_cases_flow_extends(c, selector, cases@, cases@.len() as int, inner, env, st);
        },
        IrStatement::Loop { body, continuing, break_if } => {
            let inner = match break_if {
                Some(e) => controls.push(control("[condition] loop break_if"@, e, env)),
                None => controls,
            };
            let l = flow_block(c, body@, body@.len() as int, inner, env, st);
            lemma_block_flow_extends(c, body@, body@.len() as int, inner, env, st);
            lemma_block_flow_extends(c, continuing@, continuing@.len() as int, inner, l.1, l.0);
        },
        IrStatement::Operands { op } => match op {
            IrStmtOp::Store { pointer, value } => {
                let r = store_step(c, pointer, value, controls, env, st);
                if resolved_target(c.scope, c.exprs, pointer) is Some {
                    assert(r.0.defs == st.defs.push(r.0.defs.last()));
                }
            },
            _ => {},
        },
        _ => {},
    }
}

/// Walking a block only appends definition sites.
pub proof fn lemma_block_flow_extends(
    c: FlowCtx,
    b: Seq<IrStatement>,
    k: int,
    controls: Seq<ControlView>,
    env: Map<Seq<char>, Seq<usize>>,
    st: FlowView,
)
    ensures
        extends(st.defs, flow_block(c, b, k, controls, env, st).0.defs),
    decreases b, 0int, k,
{
    if k > 0 {
        let prev = flow_block(c, b, k - 1, controls, env, st);
        lemma_block_flow_extends(c, b, k - 1, controls, env, st);
        if k - 1 < b.len() {
            lemma_stmt_flow_extends(c, b[k - 1], controls, prev.1, prev.0);
        }
    }
}

proof fn lemma_cases_flow_extends(
    c: FlowCtx,
    selector: usize,
    cs: Seq<IrSwitchCase>,
    k: int,
    inner: Seq<ControlView>,
    before: Map<Seq<char>, Seq<usize>>,
    st: FlowView,
)
    ensures
        extends(st.defs, flow_cases(c, selector, cs, k, inner, before, st).0.defs),
    decreases cs, 0int, k,
{
    if k > 0 {
        let prev = flow_cases(c, selector, cs, k - 1, inner, before, st);
        lemma_cases_flow_extends(c, selector, cs, k - 1, inner, before, st);
        if k - 1 < cs.len() {
            let case_controls = inner.push(control("[condition] case "@ + cs[k - 1].value@, selector, before));
            lemma_block_flow_extends(c, cs[k - 1].body@, cs[k - 1].body@.len() as int, case_controls, before, prev.0);
        }
    }
}

/// Walking a statement from an environment that names only recorded sites
/// of its targets gives such an environment again, and every recorded site
/// is reached only by earlier sites of the targets they are listed under
/// (as long as the sites fit in memory).
pub proof fn lemma_stmt_flow_ok(
    c: FlowCtx,
    s: IrStatement,
    controls: Seq<ControlView>,
    env: Map<Seq<char>, Seq<usize>>,
    st: FlowView,
)
    requires
        reaches_ok(env, st.defs),
        sites_ok(st.defs),
        flow_stmt(c, s, controls, env, st).0.defs.len() <= usize::MAX,
    ensures
        reaches_ok(flow_stmt(c, s, controls, env, st).1, flow_stmt(c, s, controls, env, st).0.defs),
        sites_ok(flow_stmt(c, s, controls, env, st).0.defs),
    decreases s, 1int,
{
    lemma_stmt_flow_extends(c, s, controls, env, st);
    match s {
        IrStatement::Block { body } => {
            lemma_block_flow_ok(c, body@, body@.len() as int, controls, env, st);
        },
        IrStatement::If { condition, accept, reject } => {
            let inner = controls.push(control("[condition] if"@, condition, env));
            let a = flow_block(c, accept@, accept@.len() as int, inner, env, st);
            let r = flow_block(c, reject@, reject@.len() as int, inner, env, a.0);
            lemma_block_flow_extends(c, reject@, reject@.len() as int, inner, env, a.0);
            lemma_block_flow_ok(c, accept@, accept@.len() as int, inner, env, st);
            lemma_block_flow_extends(c, accept@, accept@.len() as int, inner, env, st);
            lemma_reaches_grow(env, st.defs, a.0.defs);
            lemma_block_flow_ok(c, reject@, reject@.len() as int, inner, env, a.0);
            lemma_reaches_grow(a.1, a.0.defs, r.0.defs);
            lemma_reaches_merge(Map::empty(), a.1, r.0.defs);
            lemma_reaches_merge(merged_env(Map::empty(), a.1), r.1, r.0.defs);
        },
        IrStatement::Switch { selector, cases } => {
            let inner = controls.push(control("[condition] switch selector"@, selector, env));
            lemma_cases_flow_ok(c, selector, cases@, cases@.len() as int, inner, env, st);
        },
        IrStatement::Loop { body, continuing, break_if } => {
            let inner = match break_if {
                Some(e) => controls.push(control("[condition] loop break_if"@, e, env)),
                None => controls,
            };
            let l = flow_block(c, body@, body@.len() as int, inner, env, st);
            let k = flow_block(c, continuing@, continuing@.len() as int, inner, l.1, l.0);
            lemma_block_flow_extends(c, continuing@, continuing@.len() as int, inner, l.1, l.0);
            lemma_block_flow_extends(c, body@, body@.len() as int, inner, env, st);
            lemma_block_flow_ok(c, body@, body@.len() as int, inner, env, st);
            lemma_block_flow_ok(c, continuing@, continuing@.len() as int, inner, l.1, l.0);
            lemma_reaches_grow(env, st.defs, l.0.defs);
            lemma_reaches_grow(env, l.0.defs, k.0.defs);
            lemma_reaches_merge(Map::empty(), env, k.0.defs);
            lemma_reaches_merge(merged_env(Map::empty(), env), k.1, k.0.defs);
        },
        IrStatement::Operands { op } => match op {
            IrStmtOp::Store { pointer, value } => {
                lemma_store_ok(c, pointer, value, controls, env, st);
            },
            _ => {},
        },
        _ => {},
    }
}

/// The same for the first `k` statements of a block.
pub proof fn lemma_block_flow_ok(
    c: FlowCtx,
    b: Seq<IrStatement>,
    k: int,
    controls: Seq<ControlView>,
    env: Map<Seq<char>, Seq<usize>>,
    st: FlowView,
)
    requires
        reaches_ok(env, st.defs),
        sites_ok(st.defs),
        flow_block(c, b, k, controls, env, st).0.defs.len() <= usize::MAX,
    ensures
        reaches_ok(flow_block(c, b, k, controls, env, st).1, flow_block(c, b, k, controls, env, st).0.defs),
        sites_ok(flow_block(c, b, k, controls, env, st).0.defs),
    decreases b, 0int, k,
{
    if k > 0 {
        let prev = flow_block(c, b, k - 1, controls, env, st);
        if k - 1 < b.len() {
            lemma_stmt_flow_extends(c, b[k - 1], controls, prev.1, prev.0);
        }
        lemma_block_flow_ok(c, b, k - 1, controls, env, st);
        if k - 1 < b.len() {
            lemma_stmt_flow_ok(c, b[k - 1], controls, prev.1, prev.0);
        }
    }
}

proof fn lemma_cases_flow_ok(
    c: FlowCtx,
    selector: usize,
    cs: Seq<IrSwitchCase>,
    k: int,
    inner: Seq<ControlView>,
    before: Map<Seq<char>, Seq<usize>>,
    st: FlowView,
)
    requires
        reaches_ok(before, st.defs),
        sites_ok(st.defs),
        flow_cases(c, selector, cs, k, inner, before, st).0.defs.len() <= usize::MAX,
    ensures
        reaches_ok(flow_cases(c, selector, cs, k, inner, before, st).1, flow_cases(c, selector, cs, k, inner, before, st).0.defs),
        sites_ok(flow_cases(c, selector, cs, k, inner, before, st).0.defs),
    decreases cs, 0int, k,
{
    if k > 0 {
        let prev = flow_cases(c, selector, cs, k - 1, inner, before, st);
        if k - 1 < cs.len() {
            let case_controls = inner.push(control("[condition] case "@ + cs[k - 1].value@, selector, before));
            lemma_block_flow_extends(c, cs[k - 1].body@, cs[k - 1].body@.len() as int, case_controls, before, prev.0);
        }
        lemma_cases_flow_ok(c, selector, cs, k - 1, inner, before, st);
        if k - 1 < cs.len() {
            let case_controls = inner.push(control("[condition] case "@ + cs[k - 1].value@, selector, before));
            lemma_cases_flow_extends(c, selector, cs, k - 1, inner, before, st);
            lemma_reaches_grow(before, st.defs, prev.0.defs);
            let r = flow_block(c, cs[k - 1].body@, cs[k - 1].body@.len() as int, case_controls, before, prev.0);
            lemma_block_flow_ok(c, cs[k - 1].body@, cs[k - 1].body@.len() as int, case_controls, before, prev.0);
            lemma_reaches_grow(prev.1, prev.0.defs, r.0.defs);
            lemma_reaches_merge(prev.1, r.1, r.0.defs);
        }
    }
}

proof fn lemma_initial_env_ok(c: FlowCtx, locals: Seq<IrLocal>, k: int, st: FlowView)
    ensures
        extends(st.defs, initial_env(c, locals, k, st).0.defs),
        sites_ok(st.defs) && initial_env(c, locals, k, st).0.defs.len() <= usize::MAX ==> {
            &&& reaches_ok(initial_env(c, locals, k, st).1, initial_env(c, locals, k, st).0.defs)
            &&& sites_ok(initial_env(c, locals, k, st).0.defs)
        },
    decreases k,
{
    if k > 0 {
        let prev = initial_env(c, locals, k - 1, st);
        lemma_initial_env_ok(c, locals, k - 1, st);
        match locals[k - 1].init {
            None => {},
            Some(init) => {
                let r = initial_env(c, locals, k, st);
                let site = r.0.defs.last();
                assert(r.0.defs == prev.0.defs.push(site));
                if sites_ok(st.defs) && r.0.defs.len() <= usize::MAX {
                    lemma_reaches_define(prev.1, prev.0.defs, site);
                }
            },
        }
    } else {
        lemma_reaches_empty(st.defs);
    }
}

proof fn lemma_function_flow_ok(c: FlowCtx, f: IrFunction, st: FlowView)
    ensures
        extends(st.defs, flow_function(c, f, st).0.defs),
        sites_ok(st.defs) && flow_function(c, f, st).0.defs.len() <= usize::MAX ==> {
            &&& reaches_ok(flow_function(c, f, st).1, flow_function(c, f, st).0.defs)
            &&& sites_ok(flow_function(c, f, st).0.defs)
        },
{
    let i = initial_env(c, f.locals@, f.locals@.len() as int, st);
    lemma_initial_env_ok(c, f.locals@, f.locals@.len() as int, st);
    lemma_block_flow_extends(c, f.body@, f.body@.len() as int, seq![], i.1, i.0);
    if sites_ok(st.defs) && flow_function(c, f, st).0.defs.len() <= usize::MAX {
        lemma_block_flow_ok(c, f.body@, f.body@.len() as int, seq![], i.1, i.0);
    }
}

proof fn lemma_entries_flow_ok(b: Seq<u8>, m: ShaderModule, k: int)
    ensures
        entries_flow(b, m, k).0.defs.len() <= usize::MAX ==> {
            &&& reaches_ok(entries_flow(b, m, k).1, entries_flow(b, m, k).0.defs)
            &&& sites_ok(entries_flow(b, m, k).0.defs)
        },
    decreases k,
{
    if k > 0 {
        let prev = entries_flow(b, m, k - 1);
        let e = m.entry_points@[k - 1];
        let known = dedup_targets(spec_globals_targets(b, m) + spec_entries_targets(b, m, k));
        let c = FlowCtx { b, scope: e.name@, exprs: e.function.expressions@, known };
        let r = flow_function(c, e.function, prev.0);
        lemma_entries_flow_ok(b, m, k - 1);
        lemma_function_flow_ok(c, e.function, prev.0);
        if r.0.defs.len() <= usize::MAX {
            lemma_reaches_grow(prev.1, prev.0.defs, r.0.defs);
            lemma_reaches_merge(prev.1, r.1, r.0.defs);
        }
    } else {
        lemma_reaches_empty(seq![]);
    }
}

proof fn lemma_functions_flow_ok(b: Seq<u8>, m: ShaderModule, k: int)
    ensures
        functions_flow(b, m, k).0.defs.len() <= usize::MAX ==> {
            &&& reaches_ok(functions_flow(b, m, k).1, functions_flow(b, m, k).0.defs)
            &&& sites_ok(functions_flow(b, m, k).0.defs)
        },
    decreases k,
{
    if k > 0 {
        let prev = functions_flow(b, m, k - 1);
        let f = m.functions@[k - 1];
        let known = dedup_targets(
            spec_globals_targets(b, m) + spec_entries_targets(b, m, m.entry_points@.len() as int)
                + spec_functions_targets(b, m, k),
        );
        let c = FlowCtx { b, scope: spec_function_scope((k - 1) as nat, f.name), exprs: f.expressions@, known };
        let r = flow_function(c, f, prev.0);
        lemma_functions_flow_ok(b, m, k - 1);
        lemma_function_flow_ok(c, f, prev.0);
        if r.0.defs.len() <= usize::MAX {
            lemma_reaches_grow(prev.1, prev.0.defs, r.0.defs);
            lemma_reaches_merge(prev.1, r.1, r.0.defs);
        }
    } else {
        lemma_entries_flow_ok(b, m, m.entry_points@.len() as int);
    }
}

/// Every definition that reaches the end of some function body of the
/// module is a recorded definition site of the target it is listed under,
/// and every site is reached only by sites recorded before it, of the
/// targets they are listed under.
pub proof fn lemma_reaching_definitions_are_sites_of_their_targets(b: Seq<u8>, m: ShaderModule)
    requires
        spec_definition_flow(b, m).0.defs.len() <= usize::MAX,
    ensures
        reaches_ok(spec_definition_flow(b, m).1, spec_definition_flow(b, m).0.defs),
        sites_ok(spec_definition_flow(b, m).0.defs),
{
    lemma_functions_flow_ok(b, m, m.functions@.len() as int);
}

/// A store into a known target records one definition site of that target,
/// and that site is then the only definition of the target that reaches
/// what follows.
pub proof fn lemma_store_replaces_reaching_definitions(
    c: FlowCtx,
    pointer: usize,
    value: usize,
    controls: Seq<ControlView>,
    env: Map<Seq<char>, Seq<usize>>,
    st: FlowView,
)
    requires
        resolved_target(c.scope, c.exprs, pointer) is Some,
    ensures
        ({
            let tid = resolved_target(c.scope, c.exprs, pointer)->0;
            let r = store_step(c, pointer, value, controls, env, st);
            &&& r.0.defs.len() == st.defs.len() + 1
            &&& r.0.defs.last().target_id == tid
            &&& r.0.defs.last().value == Some(value)
            &&& r.0.defs.last().env == env
            &&& r.1[tid] == seq![st.defs.len() as usize]
            &&& forall|k: Seq<char>| k != tid ==> r.1.dom().contains(k) == env.dom().contains(k)
                && (env.dom().contains(k) ==> #[trigger] r.1[k] == env[k])
        }),
{
}


/// The definitions `merge_two(a, b)` lists for `t` include those `a` and
/// those `b` list for it.
proof fn lemma_merge_two_keeps(a: Map<Seq<char>, Seq<usize>>, b: Map<Seq<char>, Seq<usize>>, t: Seq<char>, d: usize)
    ensures
        (a.dom().contains(t) && a[t].contains(d)) || (b.dom().contains(t) && b[t].contains(d)) ==> merge_two(
            a,
            b,
        ).dom().contains(t) && merge_two(a, b)[t].contains(d),
{
    let m1 = merged_env(Map::empty(), a);
    if a.dom().contains(t) && a[t].contains(d) {
        super::definitions::lemma_merge_keeps_definitions(Map::empty(), a, t);
        let i = choose|i: int| 0 <= i < a[t].len() && a[t][i] == d;
        assert(m1[t].contains(a[t][i]));
        let q = choose|q: int| 0 <= q < m1[t].len() && m1[t][q] == d;
        if b.dom().contains(t) {
            super::definitions::lemma_append_new_grows(defs_or_empty(m1, t), b[t]);
            assert(defs_or_empty(m1, t) == m1[t]);
            assert(merge_two(a, b)[t].contains(m1[t][q]));
        } else {
            assert(merge_two(a, b)[t] == m1[t]);
        }
    } else if b.dom().contains(t) && b[t].contains(d) {
        super::definitions::lemma_merge_keeps_definitions(m1, b, t);
        let i = choose|i: int| 0 <= i < b[t].len() && b[t][i] == d;
        assert(merge_two(a, b)[t].contains(b[t][i]));
    }
}

/// After a loop, every definition that reaches the end of its continuing
/// block (walked after its body) reaches what follows the loop, and so does
/// every definition that reached the loop.
pub proof fn lemma_loop_exit_reaching_definitions(
    c: FlowCtx,
    body: Vec<IrStatement>,
    continuing: Vec<IrStatement>,
    break_if: Option<usize>,
    controls: Seq<ControlView>,
    env: Map<Seq<char>, Seq<usize>>,
    st: FlowView,
    t: Seq<char>,
    d: usize,
)
    ensures
        ({
            let inner = match break_if {
                Some(e) => controls.push(control("[condition] loop break_if"@, e, env)),
                None => controls,
            };
            let l = flow_block(c, body@, body@.len() as int, inner, env, st);
            let k = flow_block(c, continuing@, continuing@.len() as int, inner, l.1, l.0);
            let after = flow_stmt(c, IrStatement::Loop { body, continuing, break_if }, controls, env, st).1;
            &&& (k.1.dom().contains(t) && k.1[t].contains(d)) ==> after.dom().contains(t) && after[t].contains(d)
            &&& (env.dom().contains(t) && env[t].contains(d)) ==> after.dom().contains(t) && after[t].contains(d)
        }),
{
    let inner = match break_if {
        Some(e) => controls.push(control("[condition] loop break_if"@, e, env)),
        None => controls,
    };
    let l = flow_block(c, body@, body@.len() as int, inner, env, st);
    let k = flow_block(c, continuing@, continuing@.len() as int, inner, l.1, l.0);
    assert(flow_stmt(c, IrStatement::Loop { body, continuing, break_if }, controls, env, st).1 == merge_two(env, k.1));
    lemma_merge_two_keeps(env, k.1, t, d);
}

} // verus!
