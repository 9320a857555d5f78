//! Texture aliases of the prebuilt Gaussian blur routes.
//!
//! A blur is planned once per downsampling factor (1, 2, 4, 8, 16), each
//! route with its own textures. The routes share two five-level mip chains,
//! A and B: each route's textures are renamed to views of those chains, the
//! horizontal and vertical passes of a route alternating between them.

use vstd::prelude::*;

use crate::text::{concat, concat3, decimal, spec_decimal};

verus! {

/// The downsampling factors of the prebuilt routes, in order.
pub open spec fn route_factor(level: int) -> u32 {
    if level == 0 {
        1
    } else if level == 1 {
        2
    } else if level == 2 {
        4
    } else if level == 3 {
        8
    } else {
        16
    }
}

/// The name `sys.blur.<layer>.<suffix>` of a texture of the blur of `layer`.
pub open spec fn blur_texture_name(layer: Seq<char>, suffix: Seq<char>) -> Seq<char> {
    "sys.blur."@ + layer + "."@ + suffix
}

/// `<kind>.route<factor>`.
pub open spec fn route_suffix(kind: Seq<char>, factor: u32) -> Seq<char> {
    kind + ".route"@ + spec_decimal(factor as nat)
}

/// The aliases of the route of mip level `level` (factor `2^level`), as
/// (route texture, chain view) pairs. The factor-16 route flips its phase,
/// so that its last upsample reads A while writing B.
pub open spec fn route_aliases(layer: Seq<char>, a: Seq<Seq<char>>, b: Seq<Seq<char>>, level: int) -> Seq<
    (Seq<char>, Seq<char>),
> {
    let factor = route_factor(level);
    let h = blur_texture_name(layer, route_suffix("h"@, factor));
    let v = blur_texture_name(layer, route_suffix("v"@, factor));
    if level == 0 {
        seq![(h, a[0]), (v, b[0])]
    } else if level == 4 {
        seq![
            (h, b[4]),
            (v, a[4]),
            (blur_texture_name(layer, route_suffix("ds.8"@, 16)), b[3]),
            (blur_texture_name(layer, route_suffix("ds.2"@, 16)), a[4]),
        ]
    } else {
        seq![
            (h, b[level]),
            (v, a[level]),
            (blur_texture_name(layer, route_suffix("ds."@ + spec_decimal(factor as nat), factor)), a[level]),
        ]
    }
}

/// The aliases of the routes of the first `k` levels, in order.
pub open spec fn routes_aliases(layer: Seq<char>, a: Seq<Seq<char>>, b: Seq<Seq<char>>, k: int) -> Seq<
    (Seq<char>, Seq<char>),
>
    decreases k,
{
    if k <= 0 {
        seq![]
    } else {
        routes_aliases(layer, a, b, k - 1) + route_aliases(layer, a, b, k - 1)
    }
}

pub open spec fn names_view(v: Seq<String>) -> Seq<Seq<char>> {
    v.map_values(|s: String| s@)
}

pub open spec fn pairs_view(v: Seq<(String, String)>) -> Seq<(Seq<char>, Seq<char>)> {
    v.map_values(|p: (String, String)| (p.0@, p.1@))
}

fn blur_texture(layer_id: &str, suffix: &str) -> (r: String)
    ensures
        r@ == blur_texture_name(layer_id@, suffix@),
{
    let mut name = concat3("sys.blur.", layer_id, ".");
    name.append(suffix);
    name
}

fn route_suffix_exec(kind: &str, factor: u32) -> (r: String)
    ensures
        r@ == route_suffix(kind@, factor),
{
    let digits = decimal(factor as usize);
    concat3(kind, ".route", digits.as_str())
}

fn push_alias(out: &mut Vec<(String, String)>, name: String, view: &String)
    ensures
        pairs_view(final(out)@) == pairs_view(old(out)@).push((name@, view@)),
{
    let ghost before = out@;
    let ghost nv = name@;
    out.push((name, view.clone()));
    assert(pairs_view(out@) =~= pairs_view(before).push((nv, view@)));
}

/// `prebuilt_route_texture_aliases`: for each prebuilt route, in the order
/// of the factors, the view of chain A (`a_views`, one per mip level) or
/// chain B (`b_views`) that each of its textures becomes.
pub fn prebuilt_route_texture_aliases(layer_id: &str, a_views: &Vec<String>, b_views: &Vec<String>) -> (r: Vec<
    (String, String),
>)
    requires
        a_views@.len() == 5,
        b_views@.len() == 5,
    ensures
        pairs_view(r@) == routes_aliases(layer_id@, names_view(a_views@), names_view(b_views@), 5),
{
    let ghost a = names_view(a_views@);
    let ghost b = names_view(b_views@);
    let mut out: Vec<(String, String)> = Vec::new();
    assert(pairs_view(out@) =~= routes_aliases(layer_id@, a, b, 0));
    let mut level: usize = 0;
    let mut factor: u32 = 1;
    while level < 5
        invariant
            a == names_view(a_views@),
            b == names_view(b_views@),
            a_views@.len() == 5,
            b_views@.len() == 5,
            level <= 5,
            level < 5 ==> factor == route_factor(level as int),
            pairs_view(out@) == routes_aliases(layer_id@, a, b, level as int),
        decreases 5 - level,
    {
        let ghost before = pairs_view(out@);
        let ghost want = route_aliases(layer_id@, a, b, level as int);
        let h = blur_texture(layer_id, route_suffix_exec("h", factor).as_str());
        let v = blur_texture(layer_id, route_suffix_exec("v", factor).as_str());
        assert(a[level as int] == a_views@[level as int]@);
        assert(b[level as int] == b_views@[level as int]@);
        if level == 0 {
            push_alias(&mut out, h, &a_views[0]);
            push_alias(&mut out, v, &b_views[0]);
        } else if level == 4 {
            assert(b[3] == b_views@[3]@);
            push_alias(&mut out, h, &b_views[4]);
            push_alias(&mut out, v, &a_views[4]);
            let ds8 = blur_texture(layer_id, route_suffix_exec("ds.8", 16).as_str());
            push_alias(&mut out, ds8, &b_views[3]);
            let ds2 = blur_texture(layer_id, route_suffix_exec("ds.2", 16).as_str());
            push_alias(&mut out, ds2, &a_views[4]);
        } else {
            push_alias(&mut out, h, &b_views[level]);
            push_alias(&mut out, v, &a_views[level]);
            let digits = decimal(factor as usize);
            let kind = concat("ds.", digits.as_str());
            let ds = blur_texture(layer_id, route_suffix_exec(kind.as_str(), factor).as_str());
            push_alias(&mut out, ds, &a_views[level]);
        }
        assert(pairs_view(out@) =~= before + want);
        level = level + 1;
        if level < 5 {
            factor = factor * 2;
        }
    }
    out
}


/// The suffixes of the route textures, in the order of the aliases.
pub open spec fn route_texture_suffixes() -> Seq<Seq<char>> {
    seq![
        route_suffix("h"@, 1),
        route_suffix("v"@, 1),
        route_suffix("h"@, 2),
        route_suffix("v"@, 2),
        route_suffix("ds."@ + spec_decimal(2), 2),
        route_suffix("h"@, 4),
        route_suffix("v"@, 4),
        route_suffix("ds."@ + spec_decimal(4), 4),
        route_suffix("h"@, 8),
        route_suffix("v"@, 8),
        route_suffix("ds."@ + spec_decimal(8), 8),
        route_suffix("h"@, 16),
        route_suffix("v"@, 16),
        route_suffix("ds.8"@, 16),
        route_suffix("ds.2"@, 16),
    ]
}

proof fn lemma_suffix_chars()
    ensures
        route_texture_suffixes() =~~= seq![
            seq!['h', '.', 'r', 'o', 'u', 't', 'e', '1'],
            seq!['v', '.', 'r', 'o', 'u', 't', 'e', '1'],
            seq!['h', '.', 'r', 'o', 'u', 't', 'e', '2'],
            seq!['v', '.', 'r', 'o', 'u', 't', 'e', '2'],
            seq!['d', 's', '.', '2', '.', 'r', 'o', 'u', 't', 'e', '2'],
            seq!['h', '.', 'r', 'o', 'u', 't', 'e', '4'],
            seq!['v', '.', 'r', 'o', 'u', 't', 'e', '4'],
            seq!['d', 's', '.', '4', '.', 'r', 'o', 'u', 't', 'e', '4'],
            seq!['h', '.', 'r', 'o', 'u', 't', 'e', '8'],
            seq!['v', '.', 'r', 'o', 'u', 't', 'e', '8'],
            seq!['d', 's', '.', '8', '.', 'r', 'o', 'u', 't', 'e', '8'],
            seq!['h', '.', 'r', 'o', 'u', 't', 'e', '1', '6'],
            seq!['v', '.', 'r', 'o', 'u', 't', 'e', '1', '6'],
            seq!['d', 's', '.', '8', '.', 'r', 'o', 'u', 't', 'e', '1', '6'],
            seq!['d', 's', '.', '2', '.', 'r', 'o', 'u', 't', 'e', '1', '6'],
        ],
{
    reveal_strlit("h");
    reveal_strlit("v");
    reveal_strlit(".route");
    reveal_strlit("ds.");
    reveal_strlit("ds.8");
    reveal_strlit("ds.2");
    assert(spec_decimal(1) =~= seq!['1']);
    assert(spec_decimal(2) =~= seq!['2']);
    assert(spec_decimal(4) =~= seq!['4']);
    assert(spec_decimal(8) =~= seq!['8']);
    assert(spec_decimal(16) =~= seq!['1', '6']) by {
        assert(spec_decimal(1) =~= seq!['1']);
    }
}


proof fn lemma_suffixes_distinct()
    ensures
        forall|i: int, j: int|
            0 <= i < j < 15 ==> #[trigger] route_texture_suffixes()[i] != #[trigger] route_texture_suffixes()[j],
{
    lemma_suffix_chars();
    let t = route_texture_suffixes();
    assert forall|i: int, j: int| 0 <= i < j < 15 implies #[trigger] t[i] != #[trigger] t[j] by {
        if t[i] == t[j] {
            assert(t[i].len() == t[j].len());
            assert(t[i][0] == t[j][0]);
            assert(t[i][3] == t[j][3]);
            assert(t[i][7] == t[j][7]);
        }
    }
}

proof fn lemma_prefixed_injective(p: Seq<char>, x: Seq<char>, y: Seq<char>)
    requires
        p + x == p + y,
    ensures
        x == y,
{
    assert((p + x).skip(p.len() as int) =~= x);
    assert((p + y).skip(p.len() as int) =~= y);
}

/// Every route texture is given exactly one view: the aliases name fifteen
/// route textures, no two alike, whatever the layer and the chains.
pub proof fn lemma_route_textures_are_distinct(layer: Seq<char>, a: Seq<Seq<char>>, b: Seq<Seq<char>>)
    ensures
        routes_aliases(layer, a, b, 5).len() == 15,
        forall|i: int, j: int|
            0 <= i < j < 15 ==> routes_aliases(layer, a, b, 5)[i].0 != routes_aliases(layer, a, b, 5)[j].0,
{
    let r = routes_aliases(layer, a, b, 5);
    let t = route_texture_suffixes();
    reveal_with_fuel(routes_aliases, 6);
    assert(r.len() == 15);
    assert forall|i: int| 0 <= i < 15 implies #[trigger] r[i].0 == blur_texture_name(layer, t[i]) by {
        assert(r =~= route_aliases(layer, a, b, 0) + route_aliases(layer, a, b, 1) + route_aliases(layer, a, b, 2)
            + route_aliases(layer, a, b, 3) + route_aliases(layer, a, b, 4));
    }
    lemma_suffixes_distinct();
    assert forall|i: int, j: int| 0 <= i < j < 15 implies r[i].0 != r[j].0 by {
        assert(r[i].0 == blur_texture_name(layer, t[i]));
        assert(r[j].0 == blur_texture_name(layer, t[j]));
        assert(t[i] != t[j]);
        if r[i].0 == r[j].0 {
            assert(blur_texture_name(layer, t[i]) =~= ("sys.blur."@ + layer + "."@) + t[i]);
            assert(blur_texture_name(layer, t[j]) =~= ("sys.blur."@ + layer + "."@) + t[j]);
            lemma_prefixed_injective("sys.blur."@ + layer + "."@, t[i], t[j]);
        }
    }
}

} // verus!
