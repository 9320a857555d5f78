//! Small pieces of dependency-tree rendering: edge labels, node labels,
//! definition ranges, swizzle names and component projections.

use vstd::prelude::*;

use super::ir::IrSwizzleComponent;
use super::model::{PassDebugDependencyTarget, PassDebugSourceRange};
use crate::text::{concat, concat3, spec_trim, string_of, trim_chars};

verus! {

/// The edge label of a contributor: the label inherited from the caller, or
/// else the operation's name.
pub fn operation_edge(inherited_edge: Option<String>, operation: String) -> (r: Option<String>)
    ensures
        r == (match inherited_edge {
            Some(e) => Some(e),
            None => Some(operation),
        }),
{
    match inherited_edge {
        Some(e) => Some(e),
        None => Some(operation),
    }
}

/// The definition's range when it differs from the range the node shows.
pub fn distinct_definition_source_range(
    definition_source_range: Option<PassDebugSourceRange>,
    source_range: Option<PassDebugSourceRange>,
) -> (r: Option<PassDebugSourceRange>)
    ensures
        r == (match definition_source_range {
            Some(d) => if source_range == Some(d) {
                None
            } else {
                Some(d)
            },
            None => None,
        }),
{
    match definition_source_range {
        Some(d) => match source_range {
            Some(s) => if s == d {
                None
            } else {
                Some(d)
            },
            None => Some(d),
        },
        None => None,
    }
}

/// The label of a node that stands for a target: `<label> (<kind>)`,
/// preceded by `<display> -> ` when the trimmed display label is neither
/// empty nor the target's name.
pub open spec fn spec_dependency_target_node_label(
    label: Seq<char>,
    kind: Seq<char>,
    name: Seq<char>,
    display_label: Option<Seq<char>>,
) -> Seq<char> {
    let target_label = label + " ("@ + kind + ")"@;
    match display_label {
        Some(d) => {
            let t = spec_trim(d);
            if t.len() == 0 || t == name {
                target_label
            } else {
                t + " -> "@ + target_label
            }
        },
        None => target_label,
    }
}

pub fn dependency_target_node_label(target: &PassDebugDependencyTarget, display_label: Option<&str>) -> (r:
    String)
    ensures
        r@ == spec_dependency_target_node_label(
            target.label@,
            target.kind@,
            target.name@,
            match display_label {
                Some(d) => Some(d@),
                None => None,
            },
        ),
{
    let mut target_label = concat3(target.label.as_str(), " (", target.kind.as_str());
    target_label.append(")");
    match display_label {
        Some(d) => {
            let cs = trim_chars(d);
            let trimmed = string_of(&cs);
            if cs.len() == 0 || trimmed == target.name {
                target_label
            } else {
                let mut r = concat(trimmed.as_str(), " -> ");
                r.append(target_label.as_str());
                r
            }
        },
        None => target_label,
    }
}


// ---------------------------------------------------------------------------
// Swizzles
// ---------------------------------------------------------------------------

/// The component name of vector lane `index`: `x`, `y`, `z`, `w`.
pub open spec fn spec_component_for_index(index: u32) -> Option<Seq<char>> {
    if index == 0 {
        Some("x"@)
    } else if index == 1 {
        Some("y"@)
    } else if index == 2 {
        Some("z"@)
    } else if index == 3 {
        Some("w"@)
    } else {
        None
    }
}

pub open spec fn opt_str_view(o: Option<&'static str>) -> Option<Seq<char>> {
    match o {
        Some(s) => Some(s@),
        None => None,
    }
}

pub fn swizzle_component_for_index(index: u32) -> (r: Option<&'static str>)
    ensures
        opt_str_view(r) == spec_component_for_index(index),
{
    if index == 0 {
        Some("x")
    } else if index == 1 {
        Some("y")
    } else if index == 2 {
        Some("z")
    } else if index == 3 {
        Some("w")
    } else {
        None
    }
}

/// The vector lane a swizzle component selects.
pub open spec fn spec_component_index(c: IrSwizzleComponent) -> u32 {
    match c {
        IrSwizzleComponent::X => 0,
        IrSwizzleComponent::Y => 1,
        IrSwizzleComponent::Z => 2,
        IrSwizzleComponent::W => 3,
    }
}

pub fn swizzle_component_index(component: IrSwizzleComponent) -> (r: Option<u32>)
    ensures
        r == Some(spec_component_index(component)),
{
    match component {
        IrSwizzleComponent::X => Some(0),
        IrSwizzleComponent::Y => Some(1),
        IrSwizzleComponent::Z => Some(2),
        IrSwizzleComponent::W => Some(3),
    }
}

pub fn swizzle_component_label(component: IrSwizzleComponent) -> (r: Option<&'static str>)
    ensures
        opt_str_view(r) == spec_component_for_index(spec_component_index(component)),
{
    match component {
        IrSwizzleComponent::X => Some("x"),
        IrSwizzleComponent::Y => Some("y"),
        IrSwizzleComponent::Z => Some("z"),
        IrSwizzleComponent::W => Some("w"),
    }
}

/// The letter of a swizzle component.
pub open spec fn component_letter(c: IrSwizzleComponent) -> Seq<char> {
    match c {
        IrSwizzleComponent::X => "x"@,
        IrSwizzleComponent::Y => "y"@,
        IrSwizzleComponent::Z => "z"@,
        IrSwizzleComponent::W => "w"@,
    }
}

/// The letters of the first `k` components of a pattern.
pub open spec fn pattern_prefix_label(pattern: [IrSwizzleComponent; 4], k: nat) -> Seq<char>
    decreases k,
{
    if k == 0 || k > 4 {
        seq![]
    } else {
        pattern_prefix_label(pattern, (k - 1) as nat) + component_letter(pattern[k - 1])
    }
}

/// The first `size` components of a swizzle pattern (at most four), written
/// together: `xy`, `zyx`, ...
pub open spec fn spec_swizzle_pattern_label(size: usize, pattern: [IrSwizzleComponent; 4]) -> Seq<char> {
    pattern_prefix_label(pattern, if size < 4 { size as nat } else { 4 })
}

pub fn swizzle_pattern_label(size: usize, pattern: [IrSwizzleComponent; 4]) -> (r: String)
    ensures
        r@ == spec_swizzle_pattern_label(size, pattern),
{
    let n: usize = if size < 4 { size } else { 4 };
    let mut r = String::new();
    let mut k: usize = 0;
    while k < n
        invariant
            n <= 4,
            n == (if size < 4 { size } else { 4 }),
            k <= n,
            r@ == pattern_prefix_label(pattern, k as nat),
        decreases n - k,
    {
        let letter = swizzle_component_label(pattern[k]);
        match letter {
            Some(l) => r.append(l),
            None => {},
        }
        k = k + 1;
    }
    r
}


// ---------------------------------------------------------------------------
// Component projections
// ---------------------------------------------------------------------------

/// The components of `s` in order of first occurrence, each once.
pub open spec fn spec_dedupe(s: Seq<u32>) -> Seq<u32>
    decreases s.len(),
{
    if s.len() == 0 {
        seq![]
    } else {
        let prev = spec_dedupe(s.drop_last());
        if prev.contains(s.last()) {
            prev
        } else {
            prev.push(s.last())
        }
    }
}

fn contains_u32(v: &Vec<u32>, x: u32) -> (r: bool)
    ensures
        r == v@.contains(x),
{
    let mut i: usize = 0;
    while i < v.len()
        invariant
            i <= v@.len(),
            forall|j: int| 0 <= j < i ==> v@[j] != x,
        decreases v@.len() - i,
    {
        if v[i] == x {
            assert(v@[i as int] == x);
            return true;
        }
        i = i + 1;
    }
    false
}

/// Keeps the first occurrence of each component.
pub fn dedupe_projection(projection: Vec<u32>) -> (r: Vec<u32>)
    ensures
        r@ == spec_dedupe(projection@),
{
    let mut out: Vec<u32> = Vec::new();
    let mut i: usize = 0;
    while i < projection.len()
        invariant
            i <= projection@.len(),
            out@ == spec_dedupe(projection@.take(i as int)),
        decreases projection@.len() - i,
    {
        let c = projection[i];
        assert(projection@.take(i + 1).drop_last() =~= projection@.take(i as int));
        if !contains_u32(&out, c) {
            out.push(c);
        }
        i = i + 1;
    }
    assert(projection@.take(i as int) =~= projection@);
    out
}

/// The components that the lanes of `projection` select through
/// `access_projection` (lanes past its end are dropped).
pub open spec fn spec_project(access: Seq<u32>, projection: Seq<u32>) -> Seq<u32>
    decreases projection.len(),
{
    if projection.len() == 0 {
        seq![]
    } else {
        let prev = spec_project(access, projection.drop_last());
        let c = projection.last();
        if (c as int) < access.len() {
            prev.push(access[c as int])
        } else {
            prev
        }
    }
}

/// A projection seen through an access projection, without repeated
/// components.
pub open spec fn spec_combine_access_projection(access: Option<Seq<u32>>, projection: Seq<u32>) -> Seq<u32> {
    match access {
        Some(a) => spec_dedupe(spec_project(a, projection)),
        None => spec_dedupe(projection),
    }
}

pub fn combine_access_projection(access_projection: Option<&Vec<u32>>, projection: &Vec<u32>) -> (r: Vec<u32>)
    ensures
        r@ == spec_combine_access_projection(
            match access_projection {
                Some(a) => Some(a@),
                None => None,
            },
            projection@,
        ),
{
    match access_projection {
        Some(a) => {
            let mut mapped: Vec<u32> = Vec::new();
            let mut i: usize = 0;
            while i < projection.len()
                invariant
                    i <= projection@.len(),
                    mapped@ == spec_project(a@, projection@.take(i as int)),
                decreases projection@.len() - i,
            {
                let c = projection[i];
                assert(projection@.take(i + 1).drop_last() =~= projection@.take(i as int));
                if (c as usize) < a.len() {
                    mapped.push(a[c as usize]);
                }
                i = i + 1;
            }
            assert(projection@.take(i as int) =~= projection@);
            dedupe_projection(mapped)
        },
        None => {
            let mut copy: Vec<u32> = Vec::new();
            let mut i: usize = 0;
            while i < projection.len()
                invariant
                    i <= projection@.len(),
                    copy@ == projection@.take(i as int),
                decreases projection@.len() - i,
            {
                copy.push(projection[i]);
                assert(projection@.take(i + 1) =~= projection@.take(i as int).push(projection@[i as int]));
                i = i + 1;
            }
            assert(projection@.take(i as int) =~= projection@);
            dedupe_projection(copy)
        },
    }
}

/// Deduplicating keeps exactly the components of the input, each once, and
/// deduplicating again changes nothing.
pub proof fn lemma_dedupe_laws(s: Seq<u32>)
    ensures
        forall|i: int, j: int| 0 <= i < j < spec_dedupe(s).len() ==> spec_dedupe(s)[i] != spec_dedupe(s)[j],
        forall|x: u32| spec_dedupe(s).contains(x) <==> s.contains(x),
        spec_dedupe(spec_dedupe(s)) == spec_dedupe(s),
    decreases s.len(),
{
    if s.len() > 0 {
        lemma_dedupe_laws(s.drop_last());
        let prev = spec_dedupe(s.drop_last());
        let x = s.last();
        assert forall|y: u32| spec_dedupe(s).contains(y) <==> s.contains(y) by {
            if s.contains(y) {
                let k = choose|k: int| 0 <= k < s.len() && s[k] == y;
                if k < s.len() - 1 {
                    assert(s.drop_last()[k] == y);
                    assert(s.drop_last().contains(y));
                    assert(prev.contains(y));
                    let q = choose|q: int| 0 <= q < prev.len() && prev[q] == y;
                    assert(spec_dedupe(s)[q] == y);
                } else if !prev.contains(x) {
                    assert(spec_dedupe(s)[prev.len() as int] == y);
                }
            }
            if spec_dedupe(s).contains(y) {
                let d = spec_dedupe(s);
                let k = choose|k: int| 0 <= k < d.len() && d[k] == y;
                if k < prev.len() {
                    assert(prev[k] == y);
                    assert(prev.contains(y));
                    assert(s.drop_last().contains(y));
                    let m = choose|m: int| 0 <= m < s.drop_last().len() && s.drop_last()[m] == y;
                    assert(s[m] == y);
                } else {
                    assert(s[s.len() - 1] == y);
                }
            }
        }
        lemma_dedupe_of_distinct(spec_dedupe(s));
    } else {
        assert(spec_dedupe(spec_dedupe(s)) =~= spec_dedupe(s));
    }
}

/// Deduplicating a sequence without repeats leaves it as is.
pub proof fn lemma_dedupe_of_distinct(s: Seq<u32>)
    requires
        forall|i: int, j: int| 0 <= i < j < s.len() ==> s[i] != s[j],
    ensures
        spec_dedupe(s) == s,
    decreases s.len(),
{
    if s.len() > 0 {
        lemma_dedupe_of_distinct(s.drop_last());
        assert(s.drop_last().push(s.last()) =~= s);
        if s.drop_last().contains(s.last()) {
            let k = choose|k: int| 0 <= k < s.drop_last().len() && s.drop_last()[k] == s.last();
            assert(s[k] == s[s.len() - 1]);
        }
    }
}

} // verus!
