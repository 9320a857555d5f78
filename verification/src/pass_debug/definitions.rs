//! Environments of reaching definitions: for each target id, the ids of the
//! definitions that may reach a program point, and how environments of
//! alternative control-flow paths are merged.

use vstd::prelude::*;

verus! {

/// For each target id, the ids of the definitions that reach a point; each
/// target id occurs once.
#[derive(Clone, Debug, PartialEq, Eq)]
pub struct DefinitionEnv {
    pub entries: Vec<(String, Vec<usize>)>,
}

/// No target id occurs twice.
pub open spec fn keys_distinct(e: Seq<(String, Vec<usize>)>) -> bool {
    forall|i: int, j: int| 0 <= i < j < e.len() ==> (#[trigger] e[i]).0@ != (#[trigger] e[j]).0@
}

/// The environment as a map from target id to definition ids.
pub open spec fn env_map(e: Seq<(String, Vec<usize>)>) -> Map<Seq<char>, Seq<usize>>
    decreases e.len(),
{
    if e.len() == 0 {
        Map::empty()
    } else {
        env_map(e.drop_last()).insert(e.last().0@, e.last().1@)
    }
}

/// `acc` followed by the elements of `ds` it does not hold yet, in order.
pub open spec fn append_new(acc: Seq<usize>, ds: Seq<usize>) -> Seq<usize>
    decreases ds.len(),
{
    if ds.len() == 0 {
        acc
    } else {
        let prev = append_new(acc, ds.drop_last());
        if prev.contains(ds.last()) {
            prev
        } else {
            prev.push(ds.last())
        }
    }
}

/// The definitions of `t` for `k`, or none.
pub open spec fn defs_or_empty(t: Map<Seq<char>, Seq<usize>>, k: Seq<char>) -> Seq<usize> {
    if t.dom().contains(k) {
        t[k]
    } else {
        seq![]
    }
}

/// `source` merged into `target`: every target id of either, with the
/// definitions of `target` followed by those of `source` it lacks.
pub open spec fn merged_env(
    target: Map<Seq<char>, Seq<usize>>,
    source: Map<Seq<char>, Seq<usize>>,
) -> Map<Seq<char>, Seq<usize>> {
    Map::new(
        |k: Seq<char>| target.dom().contains(k) || source.dom().contains(k),
        |k: Seq<char>|
            if source.dom().contains(k) {
                append_new(defs_or_empty(target, k), source[k])
            } else {
                target[k]
            },
    )
}

proof fn lemma_env_map_facts(e: Seq<(String, Vec<usize>)>)
    requires
        keys_distinct(e),
    ensures
        forall|k: Seq<char>| env_map(e).dom().contains(k) <==> exists|i: int| 0 <= i < e.len() && (#[trigger] e[i]).0@ == k,
        forall|i: int| 0 <= i < e.len() ==> env_map(e)[(#[trigger] e[i]).0@] == e[i].1@,
    decreases e.len(),
{
    if e.len() > 0 {
        let d = e.drop_last();
        assert(keys_distinct(d)) by {
            assert forall|i: int, j: int| 0 <= i < j < d.len() implies (#[trigger] d[i]).0@ != (#[trigger] d[j]).0@ by {
                assert(d[i] == e[i] && d[j] == e[j]);
            }
        }
        lemma_env_map_facts(d);
        assert forall|k: Seq<char>| env_map(e).dom().contains(k) <==> exists|i: int| 0 <= i < e.len() && (#[trigger] e[i]).0@ == k by {
            if env_map(e).dom().contains(k) && k != e.last().0@ {
                assert(env_map(d).dom().contains(k));
                let i = choose|i: int| 0 <= i < d.len() && (#[trigger] d[i]).0@ == k;
                assert(e[i] == d[i]);
            }
            if exists|i: int| 0 <= i < e.len() && (#[trigger] e[i]).0@ == k {
                let i = choose|i: int| 0 <= i < e.len() && (#[trigger] e[i]).0@ == k;
                if i < e.len() - 1 {
                    assert(d[i] == e[i]);
                    assert(exists|i2: int| 0 <= i2 < d.len() && (#[trigger] d[i2]).0@ == k);
                    assert(env_map(d).dom().contains(k));
                }
            }
        }
        assert forall|i: int| 0 <= i < e.len() implies env_map(e)[(#[trigger] e[i]).0@] == e[i].1@ by {
            if i < e.len() - 1 {
                assert(d[i] == e[i]);
                assert(e[i].0@ != e[e.len() - 1].0@);
            }
        }
    }
}

proof fn lemma_env_map_update(e: Seq<(String, Vec<usize>)>, idx: int, entry: (String, Vec<usize>))
    requires
        keys_distinct(e),
        0 <= idx < e.len(),
        e[idx].0@ == entry.0@,
    ensures
        keys_distinct(e.update(idx, entry)),
        env_map(e.update(idx, entry)) == env_map(e).insert(entry.0@, entry.1@),
    decreases e.len(),
{
    let u = e.update(idx, entry);
    assert forall|i: int, j: int| 0 <= i < j < u.len() implies (#[trigger] u[i]).0@ != (#[trigger] u[j]).0@ by {
        assert(u[i].0@ == e[i].0@ && u[j].0@ == e[j].0@);
    }
    if idx == e.len() - 1 {
        assert(u.drop_last() =~= e.drop_last());
        assert(env_map(u) =~= env_map(e).insert(entry.0@, entry.1@));
    } else {
        let d = e.drop_last();
        assert(keys_distinct(d)) by {
            assert forall|i: int, j: int| 0 <= i < j < d.len() implies (#[trigger] d[i]).0@ != (#[trigger] d[j]).0@ by {
                assert(d[i] == e[i] && d[j] == e[j]);
            }
        }
        lemma_env_map_update(d, idx, entry);
        assert(u.drop_last() =~= d.update(idx, entry));
        assert(u.last() == e.last());
        assert(e.last().0@ != entry.0@);
        assert(env_map(u) =~= env_map(e).insert(entry.0@, entry.1@));
    }
}

fn contains_usize(v: &Vec<usize>, x: usize) -> (r: bool)
    ensures
        r == v@.contains(x),
{
    let mut i: usize = 0;
    while i < v.len()
        invariant
            i <= v@.len(),
            forall|j: int| 0 <= j < i ==> v@[j] != x,
        decreases v@.len() - i,
    {
        if v[i] == x {
            assert(v@[i as int] == x);
            return true;
        }
        i = i + 1;
    }
    false
}

/// `acc` followed by the definitions of `ds` it does not hold yet.
fn append_new_exec(acc: Vec<usize>, ds: &Vec<usize>) -> (r: Vec<usize>)
    ensures
        r@ == append_new(acc@, ds@),
{
    let mut out = acc;
    let ghost start = out@;
    let mut i: usize = 0;
    while i < ds.len()
        invariant
            i <= ds@.len(),
            out@ == append_new(start, ds@.take(i as int)),
        decreases ds@.len() - i,
    {
        assert(ds@.take(i + 1).drop_last() =~= ds@.take(i as int));
        if !contains_usize(&out, ds[i]) {
            out.push(ds[i]);
        }
        i = i + 1;
    }
    assert(ds@.take(i as int) =~= ds@);
    out
}

fn find_key(entries: &Vec<(String, Vec<usize>)>, key: &String) -> (r: Option<usize>)
    ensures
        match r {
            Some(i) => i < entries@.len() && entries@[i as int].0@ == key@,
            None => forall|i: int| 0 <= i < entries@.len() ==> (#[trigger] entries@[i]).0@ != key@,
        },
{
    let mut i: usize = 0;
    while i < entries.len()
        invariant
            i <= entries@.len(),
            forall|j: int| 0 <= j < i ==> (#[trigger] entries@[j]).0@ != key@,
        decreases entries@.len() - i,
    {
        if entries[i].0 == *key {
            return Some(i);
        }
        i = i + 1;
    }
    None
}

fn copy_defs(v: &Vec<usize>) -> (r: Vec<usize>)
    ensures
        r@ == v@,
{
    let mut out: Vec<usize> = Vec::new();
    let mut i: usize = 0;
    while i < v.len()
        invariant
            i <= v@.len(),
            out@ == v@.take(i as int),
        decreases v@.len() - i,
    {
        out.push(v[i]);
        assert(v@.take(i + 1) =~= v@.take(i as int).push(v@[i as int]));
        i = i + 1;
    }
    assert(v@.take(i as int) =~= v@);
    out
}

proof fn lemma_env_map_pointwise(a: Seq<(String, Vec<usize>)>, b: Seq<(String, Vec<usize>)>)
    requires
        a.len() == b.len(),
        forall|i: int| 0 <= i < a.len() ==> (#[trigger] a[i]).0@ == b[i].0@ && a[i].1@ == b[i].1@,
    ensures
        env_map(a) == env_map(b),
        keys_distinct(a) == keys_distinct(b),
    decreases a.len(),
{
    if a.len() > 0 {
        lemma_env_map_pointwise(a.drop_last(), b.drop_last());
        assert(a.last().0@ == b.last().0@);
    }
    assert(keys_distinct(a) ==> keys_distinct(b)) by {
        if keys_distinct(a) {
            assert forall|i: int, j: int| 0 <= i < j < b.len() implies (#[trigger] b[i]).0@ != (#[trigger] b[j]).0@ by {
                assert(a[i].0@ != a[j].0@);
            }
        }
    }
    assert(keys_distinct(b) ==> keys_distinct(a)) by {
        if keys_distinct(b) {
            assert forall|i: int, j: int| 0 <= i < j < a.len() implies (#[trigger] a[i]).0@ != (#[trigger] a[j]).0@ by {
                assert(b[i].0@ != b[j].0@);
            }
        }
    }
}

/// A copy of `e`, entry by entry.
pub fn copy_env(e: &DefinitionEnv) -> (r: DefinitionEnv)
    ensures
        keys_distinct(r.entries@) == keys_distinct(e.entries@),
        env_map(r.entries@) == env_map(e.entries@),
{
    let mut out: Vec<(String, Vec<usize>)> = Vec::new();
    let mut i: usize = 0;
    while i < e.entries.len()
        invariant
            i <= e.entries@.len(),
            out@.len() == i,
            forall|j: int| 0 <= j < i ==> (#[trigger] out@[j]).0@ == e.entries@[j].0@ && out@[j].1@ == e.entries@[j].1@,
        decreases e.entries@.len() - i,
    {
        let key = e.entries[i].0.clone();
        let defs = copy_defs(&e.entries[i].1);
        out.push((key, defs));
        i = i + 1;
    }
    proof {
        lemma_env_map_pointwise(out@, e.entries@);
    }
    DefinitionEnv { entries: out }
}

/// Makes `defs` the definitions of `key`, replacing those it had.
pub fn set_definitions(env: &mut DefinitionEnv, key: &String, defs: Vec<usize>)
    requires
        keys_distinct(old(env).entries@),
    ensures
        keys_distinct(final(env).entries@),
        env_map(final(env).entries@) == env_map(old(env).entries@).insert(key@, defs@),
{
    let ghost before = env.entries@;
    match find_key(&env.entries, key) {
        Some(idx) => {
            env.entries.set(idx, (key.clone(), defs));
            proof {
                lemma_env_map_update(before, idx as int, env.entries@[idx as int]);
                assert(env.entries@ == before.update(idx as int, env.entries@[idx as int]));
            }
        },
        None => {
            env.entries.push((key.clone(), defs));
            proof {
                assert(env.entries@.drop_last() =~= before);
                assert forall|a: int, b: int| 0 <= a < b < env.entries@.len() implies (
                #[trigger] env.entries@[a]).0@ != (#[trigger] env.entries@[b]).0@ by {
                    if b == env.entries@.len() - 1 {
                        assert(env.entries@[a] == before[a]);
                    } else {
                        assert(env.entries@[a] == before[a] && env.entries@[b] == before[b]);
                    }
                }
            }
            assert(env_map(env.entries@) =~= env_map(before).insert(key@, defs@));
        },
    }
}

/// Merges `source` into `target`: each target id gets the definitions it
/// had, followed by those of `source` it did not have yet.
pub fn merge_definition_env_into(target: &mut DefinitionEnv, source: DefinitionEnv)
    requires
        keys_distinct(old(target).entries@),
        keys_distinct(source.entries@),
    ensures
        keys_distinct(final(target).entries@),
        env_map(final(target).entries@) == merged_env(env_map(old(target).entries@), env_map(source.entries@)),
{
    let ghost t0 = env_map(target.entries@);
    let ghost s = source.entries@;
    let mut j: usize = 0;
    assert(merged_env(t0, env_map(s.take(0))) =~= t0);
    while j < source.entries.len()
        invariant
            s == source.entries@,
            keys_distinct(s),
            j <= s.len(),
            keys_distinct(target.entries@),
            env_map(target.entries@) == merged_env(t0, env_map(s.take(j as int))),
        decreases s.len() - j,
    {
        let key = &source.entries[j].0;
        let defs = &source.entries[j].1;
        let ghost before = env_map(target.entries@);
        let ghost sj = env_map(s.take(j as int));
        assert(s.take(j + 1).drop_last() =~= s.take(j as int));
        assert(s.take(j + 1).last() == s[j as int]);
        proof {
            lemma_env_map_facts(s.take(j as int));
            assert(keys_distinct(s.take(j as int))) by {
                assert forall|a: int, b: int| 0 <= a < b < s.take(j as int).len() implies (#[trigger] s.take(j as int)[a]).0@ != (#[trigger] s.take(j as int)[b]).0@ by {
                    assert(s.take(j as int)[a] == s[a] && s.take(j as int)[b] == s[b]);
                }
            }
            lemma_env_map_facts(s.take(j as int));
            if sj.dom().contains(key@) {
                let q = choose|q: int| 0 <= q < s.take(j as int).len() && (#[trigger] s.take(j as int)[q]).0@ == key@;
                assert(s[q].0@ == s[j as int].0@);
            }
            lemma_env_map_facts(target.entries@);
        }
        assert(env_map(s.take(j + 1)) == sj.insert(key@, defs@));
        assert(!sj.dom().contains(key@));
        assert(defs_or_empty(before, key@) == defs_or_empty(t0, key@));
        let found = find_key(&target.entries, key);
        match found {
            Some(idx) => {
                let existing = copy_defs(&target.entries[idx].1);
                assert(existing@ == before[key@]);
                let merged = append_new_exec(existing, defs);
                let ghost old_entries = target.entries@;
                target.entries.set(idx, (key.clone(), merged));
                proof {
                    lemma_env_map_update(old_entries, idx as int, target.entries@[idx as int]);
                    assert(target.entries@ == old_entries.update(idx as int, target.entries@[idx as int]));
                }
                assert(env_map(target.entries@) == before.insert(key@, append_new(defs_or_empty(t0, key@), defs@)));
            },
            None => {
                let ghost old_entries = target.entries@;
                let merged = append_new_exec(Vec::new(), defs);
                target.entries.push((key.clone(), merged));
                proof {
                    assert(target.entries@.drop_last() =~= old_entries);
                    assert forall|a: int, b: int| 0 <= a < b < target.entries@.len() implies (
                    #[trigger] target.entries@[a]).0@ != (#[trigger] target.entries@[b]).0@ by {
                        if b == target.entries@.len() - 1 {
                            assert(target.entries@[a] == old_entries[a]);
                        } else {
                            assert(target.entries@[a] == old_entries[a] && target.entries@[b] == old_entries[b]);
                        }
                    }
                    assert(!before.dom().contains(key@));
                }
                assert(env_map(target.entries@) == before.insert(key@, append_new(defs_or_empty(t0, key@), defs@)));
            },
        }
        assert(env_map(target.entries@) =~= merged_env(t0, env_map(s.take(j + 1))));
        j = j + 1;
    }
    assert(s.take(j as int) =~= s);
}

/// An environment without entries.
pub open spec fn no_entries() -> Map<Seq<char>, Seq<usize>> {
    Map::empty()
}

/// The environments `envs` merged in order into an empty one.
pub open spec fn merged_envs(envs: Seq<Map<Seq<char>, Seq<usize>>>) -> Map<Seq<char>, Seq<usize>>
    decreases envs.len(),
{
    if envs.len() == 0 {
        no_entries()
    } else {
        merged_env(merged_envs(envs.drop_last()), envs.last())
    }
}

/// Merges environments in order, starting from an empty one.
pub fn merge_definition_envs(envs: Vec<DefinitionEnv>) -> (r: DefinitionEnv)
    requires
        forall|i: int| 0 <= i < envs@.len() ==> keys_distinct(#[trigger] envs@[i].entries@),
    ensures
        keys_distinct(r.entries@),
        env_map(r.entries@) == merged_envs(envs@.map_values(|e: DefinitionEnv| env_map(e.entries@))),
{
    let ghost maps = envs@.map_values(|e: DefinitionEnv| env_map(e.entries@));
    let mut merged = DefinitionEnv { entries: Vec::new() };
    assert(env_map(merged.entries@) =~= merged_envs(maps.take(0)));
    let mut rest = envs;
    let mut k: usize = 0;
    let ghost all = rest@;
    let total = rest.len();
    while rest.len() > 0
        invariant
            total == all.len(),
            maps == all.map_values(|e: DefinitionEnv| env_map(e.entries@)),
            forall|i: int| 0 <= i < all.len() ==> keys_distinct(#[trigger] all[i].entries@),
            k <= all.len(),
            rest@ == all.skip(k as int),
            keys_distinct(merged.entries@),
            env_map(merged.entries@) == merged_envs(maps.take(k as int)),
        decreases rest@.len(),
    {
        let ghost before = rest@;
        let next = rest.remove(0);
        assert(next == all[k as int]);
        assert(rest@ =~= all.skip(k + 1));
        merge_definition_env_into(&mut merged, next);
        assert(maps.take(k + 1).drop_last() =~= maps.take(k as int));
        k = k + 1;
    }
    assert(maps.take(k as int) =~= maps);
    merged
}

// ---------------------------------------------------------------------------
// Laws
// ---------------------------------------------------------------------------

proof fn lemma_append_new_of_held(acc: Seq<usize>, ds: Seq<usize>)
    requires
        forall|i: int| 0 <= i < ds.len() ==> acc.contains(#[trigger] ds[i]),
    ensures
        append_new(acc, ds) == acc,
    decreases ds.len(),
{
    if ds.len() > 0 {
        lemma_append_new_of_held(acc, ds.drop_last());
        assert(acc.contains(ds[ds.len() - 1]));
    }
}

/// Merging an environment into itself changes nothing, and merging an
/// environment without entries into one changes nothing.
pub proof fn lemma_merge_identities(t: Map<Seq<char>, Seq<usize>>)
    ensures
        merged_env(t, t) == t,
        merged_env(t, no_entries()) == t,
{
    assert forall|k: Seq<char>| t.dom().contains(k) implies merged_env(t, t)[k] == t[k] by {
        assert forall|i: int| 0 <= i < t[k].len() implies t[k].contains(#[trigger] t[k][i]) by {}
        lemma_append_new_of_held(t[k], t[k]);
    }
    assert(merged_env(t, t) =~= t);
    assert(merged_env(t, no_entries()) =~= t);
}

/// After a merge, every definition that reached a target in either
/// environment reaches it, each target keeps its definitions in front, and
/// no target id is lost.
pub proof fn lemma_merge_keeps_definitions(
    t: Map<Seq<char>, Seq<usize>>,
    s: Map<Seq<char>, Seq<usize>>,
    k: Seq<char>,
)
    requires
        t.dom().contains(k) || s.dom().contains(k),
    ensures
        merged_env(t, s).dom().contains(k),
        t.dom().contains(k) ==> merged_env(t, s)[k].take(t[k].len() as int) == t[k],
        s.dom().contains(k) ==> forall|i: int| 0 <= i < s[k].len() ==> merged_env(t, s)[k].contains(#[trigger] s[k][i]),
{
    if s.dom().contains(k) {
        lemma_append_new_grows(defs_or_empty(t, k), s[k]);
    }
}

pub(crate) proof fn lemma_append_new_grows(acc: Seq<usize>, ds: Seq<usize>)
    ensures
        append_new(acc, ds).take(acc.len() as int) == acc,
        acc.len() <= append_new(acc, ds).len(),
        forall|i: int| 0 <= i < ds.len() ==> append_new(acc, ds).contains(#[trigger] ds[i]),
        forall|i: int| 0 <= i < acc.len() ==> append_new(acc, ds).contains(#[trigger] acc[i]),
    decreases ds.len(),
{
    if ds.len() == 0 {
        assert(acc.take(acc.len() as int) =~= acc);
        assert forall|i: int| 0 <= i < acc.len() implies acc.contains(#[trigger] acc[i]) by {}
    } else {
        lemma_append_new_grows(acc, ds.drop_last());
        let prev = append_new(acc, ds.drop_last());
        let r = append_new(acc, ds);
        if !prev.contains(ds.last()) {
            assert(r.take(acc.len() as int) =~= prev.take(acc.len() as int));
            assert(r[r.len() - 1] == ds.last());
        }
        assert forall|i: int| 0 <= i < ds.len() implies r.contains(#[trigger] ds[i]) by {
            if i < ds.len() - 1 {
                assert(ds.drop_last()[i] == ds[i]);
                assert(prev.contains(ds[i]));
                let q = choose|q: int| 0 <= q < prev.len() && prev[q] == ds[i];
                assert(r[q] == ds[i]);
            }
        }
        assert forall|i: int| 0 <= i < acc.len() implies r.contains(#[trigger] acc[i]) by {
            assert(prev.contains(acc[i]));
            let q = choose|q: int| 0 <= q < prev.len() && prev[q] == acc[i];
            assert(r[q] == acc[i]);
        }
    }
}

/// Every definition of `append_new(acc, ds)` comes from `acc` or from `ds`.
pub proof fn lemma_append_new_from(acc: Seq<usize>, ds: Seq<usize>)
    ensures
        forall|i: int|
            0 <= i < append_new(acc, ds).len() ==> acc.contains(#[trigger] append_new(acc, ds)[i]) || ds.contains(
                append_new(acc, ds)[i],
            ),
    decreases ds.len(),
{
    if ds.len() > 0 {
        lemma_append_new_from(acc, ds.drop_last());
        let prev = append_new(acc, ds.drop_last());
        let r = append_new(acc, ds);
        assert forall|i: int| 0 <= i < r.len() implies acc.contains(#[trigger] r[i]) || ds.contains(r[i]) by {
            if i < prev.len() {
                assert(r[i] == prev[i]);
                if ds.drop_last().contains(prev[i]) {
                    let q = choose|q: int| 0 <= q < ds.drop_last().len() && ds.drop_last()[q] == prev[i];
                    assert(ds[q] == prev[i]);
                }
            } else {
                assert(r[i] == ds[ds.len() - 1]);
            }
        }
    }
}

} // verus!
