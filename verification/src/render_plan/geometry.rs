//! Assembling the WGSL declarations that precede a vertex shader.

use vstd::prelude::*;

use crate::text::{chars_of, push_char, spec_trim, trim_chars};

verus! {

/// The WGSL helper that applies translation, rotation (in degrees, about x,
/// then y, then z) and scale to a point.
pub const SYS_APPLY_TRS_XYZ_WGSL: &'static str = "
fn sys_apply_trs_xyz(p: vec3f, t: vec3f, r_deg: vec3f, s: vec3f) -> vec3f {
    let rad = r_deg * 0.017453292519943295;

    let cx = cos(rad.x);
    let sx = sin(rad.x);
    let cy = cos(rad.y);
    let sy = sin(rad.y);
    let cz = cos(rad.z);
    let sz = sin(rad.z);

    let p0 = p * s;
    let p1 = vec3f(p0.x, p0.y * cx - p0.z * sx, p0.y * sx + p0.z * cx);
    let p2 = vec3f(p1.x * cy + p1.z * sy, p1.y, -p1.x * sy + p1.z * cy);
    let p3 = vec3f(p2.x * cz - p2.y * sz, p2.x * sz + p2.y * cz, p2.z);
    return p3 + t;
}
";

/// The header by which the helper is recognized in declarations.
pub const TRS_HELPER_HEADER: &'static str = "fn sys_apply_trs_xyz(";

/// `s` ends with a line feed.
pub open spec fn ends_with_newline(s: Seq<char>) -> bool {
    s.len() > 0 && s.last() == '\n'
}

/// Declarations `base` followed by `extra`: a blank side (only white space)
/// gives the other side unchanged, otherwise `extra` starts on a line of its
/// own.
pub open spec fn spec_merge_vertex_wgsl_decls(base: Seq<char>, extra: Seq<char>) -> Seq<char> {
    if spec_trim(extra).len() == 0 {
        base
    } else if spec_trim(base).len() == 0 {
        extra
    } else if ends_with_newline(base) {
        base + extra
    } else {
        base + seq!['\n'] + extra
    }
}

fn ends_with_newline_exec(s: &String) -> (r: bool)
    ensures
        r == ends_with_newline(s@),
{
    let cs = chars_of(s.as_str());
    cs.len() > 0 && cs[cs.len() - 1] == '\n'
}

pub fn merge_vertex_wgsl_decls(base: String, extra: String) -> (r: String)
    ensures
        r@ == spec_merge_vertex_wgsl_decls(base@, extra@),
{
    if trim_chars(extra.as_str()).len() == 0 {
        return base;
    }
    if trim_chars(base.as_str()).len() == 0 {
        return extra;
    }
    let mut base = base;
    if !ends_with_newline_exec(&base) {
        push_char(&mut base, '\n');
    }
    base.append(extra.as_str());
    base
}

/// `pattern` occurs in `s`.
pub open spec fn has_substring(s: Seq<char>, pattern: Seq<char>) -> bool {
    exists|i: int| 0 <= i && i + pattern.len() <= s.len() && #[trigger] s.subrange(i, i + pattern.len()) == pattern
}

/// Declarations that hold the TRS helper: unchanged when its header already
/// occurs, else with the helper appended on a line of its own and a final
/// line feed.
pub open spec fn spec_ensure_trs_helper_decl(decls: Seq<char>) -> Seq<char> {
    if has_substring(decls, TRS_HELPER_HEADER@) {
        decls
    } else {
        let joined = if decls.len() > 0 && !ends_with_newline(decls) {
            decls + seq!['\n'] + SYS_APPLY_TRS_XYZ_WGSL@
        } else {
            decls + SYS_APPLY_TRS_XYZ_WGSL@
        };
        if ends_with_newline(joined) {
            joined
        } else {
            joined.push('\n')
        }
    }
}

fn contains_text(s: &str, pattern: &str) -> (r: bool)
    ensures
        r == has_substring(s@, pattern@),
{
    let cs = chars_of(s);
    let ps = chars_of(pattern);
    if ps.len() > cs.len() {
        proof {
            assert forall|i: int| 0 <= i && i + ps@.len() <= cs@.len() implies #[trigger] cs@.subrange(
                i,
                i + ps@.len(),
            ) != ps@ by {}
        }
        return false;
    }
    let n = cs.len();
    let last = cs.len() - ps.len();
    let mut i: usize = 0;
    loop
        invariant
            n == cs@.len(),
            cs@ == s@,
            ps@ == pattern@,
            last + ps@.len() == cs@.len(),
            i <= last,
            forall|j: int| 0 <= j < i ==> #[trigger] cs@.subrange(j, j + ps@.len()) != ps@,
        decreases last - i,
    {
        let mut k: usize = 0;
        let mut same = true;
        while k < ps.len()
            invariant
                n == cs@.len(),
                last + ps@.len() == cs@.len(),
                i <= last,
                k <= ps@.len(),
                same == (forall|q: int| 0 <= q < k ==> cs@[i + q] == ps@[q]),
            decreases ps@.len() - k,
        {
            if cs[i + k] != ps[k] {
                same = false;
            }
            k = k + 1;
        }
        if same {
            assert(cs@.subrange(i as int, i + ps@.len()) =~= ps@);
            return true;
        }
        proof {
            let q = choose|q: int| 0 <= q < ps@.len() && cs@[i + q] != ps@[q];
            assert(cs@.subrange(i as int, i + ps@.len())[q] != ps@[q]);
        }
        if i == last {
            assert forall|j: int| 0 <= j && j + ps@.len() <= cs@.len() implies #[trigger] cs@.subrange(
                j,
                j + ps@.len(),
            ) != ps@ by {
                if j < i {
                }
            }
            return false;
        }
        i = i + 1;
    }
}

pub fn ensure_trs_helper_decl(decls: String) -> (r: String)
    ensures
        r@ == spec_ensure_trs_helper_decl(decls@),
{
    if contains_text(decls.as_str(), TRS_HELPER_HEADER) {
        return decls;
    }
    let mut decls = decls;
    let empty = chars_of(decls.as_str()).len() == 0;
    if !empty && !ends_with_newline_exec(&decls) {
        push_char(&mut decls, '\n');
    }
    decls.append(SYS_APPLY_TRS_XYZ_WGSL);
    if !ends_with_newline_exec(&decls) {
        push_char(&mut decls, '\n');
    }
    decls
}


/// Declarations that hold the helper keep holding it after anything is
/// appended to them.
proof fn lemma_substring_extends(s: Seq<char>, t: Seq<char>, pattern: Seq<char>)
    requires
        has_substring(s, pattern),
    ensures
        has_substring(s + t, pattern),
{
    let i = choose|i: int| 0 <= i && i + pattern.len() <= s.len() && #[trigger] s.subrange(i, i + pattern.len()) == pattern;
    assert((s + t).subrange(i, i + pattern.len()) =~= s.subrange(i, i + pattern.len()));
}

/// Ensuring the helper twice gives the declarations of ensuring it once.
pub proof fn lemma_ensure_trs_helper_idempotent(decls: Seq<char>)
    ensures
        spec_ensure_trs_helper_decl(spec_ensure_trs_helper_decl(decls)) == spec_ensure_trs_helper_decl(decls),
{
    if !has_substring(decls, TRS_HELPER_HEADER@) {
        let helper = SYS_APPLY_TRS_XYZ_WGSL@;
        let header = TRS_HELPER_HEADER@;
        assert(has_substring(helper, header)) by {
            reveal_strlit(
                "
fn sys_apply_trs_xyz(p: vec3f, t: vec3f, r_deg: vec3f, s: vec3f) -> vec3f {
    let rad = r_deg * 0.017453292519943295;

    let cx = cos(rad.x);
    let sx = sin(rad.x);
    let cy = cos(rad.y);
    let sy = sin(rad.y);
    let cz = cos(rad.z);
    let sz = sin(rad.z);

    let p0 = p * s;
    let p1 = vec3f(p0.x, p0.y * cx - p0.z * sx, p0.y * sx + p0.z * cx);
    let p2 = vec3f(p1.x * cy + p1.z * sy, p1.y, -p1.x * sy + p1.z * cy);
    let p3 = vec3f(p2.x * cz - p2.y * sz, p2.x * sz + p2.y * cz, p2.z);
    return p3 + t;
}
",
            );
            reveal_strlit("fn sys_apply_trs_xyz(");
            assert(helper.subrange(1, 1 + header.len() as int) =~= header);
        }
        let prefix = if decls.len() > 0 && !ends_with_newline(decls) {
            decls + seq!['\n']
        } else {
            decls
        };
        let joined = prefix + helper;
        assert(has_substring(joined, header)) by {
            let i = choose|i: int| 0 <= i && i + header.len() <= helper.len() && #[trigger] helper.subrange(i, i + header.len()) == header;
            assert(joined.subrange(prefix.len() + i, prefix.len() + i + header.len()) =~= helper.subrange(i, i + header.len()));
        }
        if !ends_with_newline(joined) {
            lemma_substring_extends(joined, seq!['\n'], header);
            assert(joined.push('\n') =~= joined + seq!['\n']);
        }
        if decls.len() > 0 && !ends_with_newline(decls) {
            assert(decls + seq!['\n'] + helper =~= joined);
        }
    }
}

} // verus!
