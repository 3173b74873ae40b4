//! Material-control property names and the near-miss check that rejects likely typos of them in
//! material uniform structs.

use vstd::prelude::*;
use vstd::utf8::encode_utf8;

verus! {

/// `b` is `a` with one element inserted: removing one position of `b` gives `a`.
pub open spec fn one_insertion(a: Seq<u8>, b: Seq<u8>) -> bool {
    b.len() == a.len() + 1 && exists|k: int| 0 <= k <= a.len() && #[trigger] b.remove(k) == a
}

/// `a` and `b` differ at most at one position.
pub open spec fn at_most_one_substitution(a: Seq<u8>, b: Seq<u8>) -> bool {
    a.len() == b.len() && forall|i: int, j: int|
        0 <= i < j < a.len() ==> #[trigger] a[i] == b[i] || #[trigger] a[j] == b[j]
}

/// The Levenshtein distance between `a` and `b` is at most one.
pub open spec fn within_one_edit(a: Seq<u8>, b: Seq<u8>) -> bool {
    at_most_one_substitution(a, b) || one_insertion(a, b) || one_insertion(b, a)
}

/// For `b` one longer than `a`, with `p` the first position where they differ (or the end of
/// `a`), `b` is `a` plus one element exactly when removing position `p` of `b` gives `a`.
proof fn lemma_first_mismatch_decides_insertion(a: Seq<u8>, b: Seq<u8>, p: int)
    requires
        b.len() == a.len() + 1,
        0 <= p <= a.len(),
        forall|i: int| 0 <= i < p ==> a[i] == b[i],
        p < a.len() ==> a[p] != b[p],
    ensures
        one_insertion(a, b) <==> b.remove(p) == a,
{
    if b.remove(p) == a {
        assert(one_insertion(a, b));
    }
    if one_insertion(a, b) {
        let k = choose|k: int| 0 <= k <= a.len() && #[trigger] b.remove(k) == a;
        if k > p {
            assert(b.remove(k)[p] == b[p]);
        } else if k < p {
            assert forall|i: int| 0 <= i < a.len() implies #[trigger] b.remove(p)[i] == a[i] by {
                if i >= p {
                    assert(b.remove(k)[i] == b[i + 1]);
                }
            }
            assert(b.remove(p) =~= a);
        }
    }
}

/// Whether `a` and `b` are at most one byte edit apart (one insertion, deletion, or
/// substitution).
pub fn edit_distance_at_most_one(a: &str, b: &str) -> (r: bool)
    ensures
        r == within_one_edit(encode_utf8(a@), encode_utf8(b@)),
{
    edit_distance_bytes_at_most_one(a.as_bytes(), b.as_bytes())
}

/// Byte-level scan behind [`edit_distance_at_most_one`]: walks both inputs once, allowing one
/// skipped or substituted byte.
pub fn edit_distance_bytes_at_most_one(a: &[u8], b: &[u8]) -> (r: bool)
    ensures
        r == within_one_edit(a@, b@),
{
    let n = a.len();
    let m = b.len();
    if (n > m && n - m > 1) || (m > n && m - n > 1) {
        return false;
    }
    let mut ai: usize = 0;
    let mut bi: usize = 0;
    let mut edits: usize = 0;
    let ghost mut p: int = 0;
    while ai < n && bi < m
        invariant
            n == a.len(),
            m == b.len(),
            n <= m + 1,
            m <= n + 1,
            ai <= n,
            bi <= m,
            edits <= 1,
            edits == 0 ==> ai == bi && forall|i: int| 0 <= i < ai ==> a[i] == b[i],
            edits == 1 ==> 0 <= p < ai + 1 && p < bi + 1,
            edits == 1 ==> forall|i: int| 0 <= i < p ==> a[i] == b[i],
            edits == 1 && n < m ==> bi == ai + 1 && p < n && a[p] != b[p] && forall|i: int|
                p <= i < ai ==> a[i] == b[i + 1],
            edits == 1 && n > m ==> ai == bi + 1 && p < m && a[p] != b[p] && forall|i: int|
                p <= i < bi ==> a[i + 1] == b[i],
            edits == 1 && n == m ==> ai == bi && p < ai && a[p] != b[p] && forall|i: int|
                p < i < ai ==> a[i] == b[i],
        decreases n + m - ai - bi,
    {
        if a[ai] == b[bi] {
            ai = ai + 1;
            bi = bi + 1;
            continue ;
        }
        edits = edits + 1;
        if edits > 1 {
            proof {
                if n == m {
                    assert(a[p] != b[p] && a[ai as int] != b[ai as int]);
                    assert(!at_most_one_substitution(a@, b@));
                } else if n < m {
                    lemma_first_mismatch_decides_insertion(a@, b@, p);
                    assert(b@.remove(p)[ai as int] == b[ai + 1]);
                } else {
                    lemma_first_mismatch_decides_insertion(b@, a@, p);
                    assert(a@.remove(p)[bi as int] == a[bi + 1]);
                }
            }
            return false;
        }
        proof {
            p = ai as int;
        }
        if n < m {
            bi = bi + 1;
        } else if n == m {
            ai = ai + 1;
            bi = bi + 1;
        } else {
            ai = ai + 1;
        }
    }
    let r = edits + (n - ai) + (m - bi) <= 1;
    proof {
        if n == m {
            assert(ai == n && bi == m);
            if edits == 0 {
                assert(at_most_one_substitution(a@, b@));
            } else {
                assert forall|i: int, j: int| 0 <= i < j < n implies #[trigger] a[i] == b[i]
                    || #[trigger] a[j] == b[j] by {
                    if i != p {
                        assert(a[i] == b[i]);
                    } else {
                        assert(a[j] == b[j]);
                    }
                }
            }
        } else if n < m {
            if edits == 0 {
                assert(ai == n);
                lemma_first_mismatch_decides_insertion(a@, b@, n as int);
                assert(b@.remove(n as int) =~= a@);
            } else {
                assert(ai == n && bi == m);
                lemma_first_mismatch_decides_insertion(a@, b@, p);
                assert forall|i: int| 0 <= i < n implies #[trigger] b@.remove(p)[i] == a[i] by {
                }
                assert(b@.remove(p) =~= a@);
            }
            assert(!at_most_one_substitution(a@, b@));
            assert(!one_insertion(b@, a@));
        } else {
            if edits == 0 {
                assert(bi == m);
                lemma_first_mismatch_decides_insertion(b@, a@, m as int);
                assert(a@.remove(m as int) =~= b@);
            } else {
                assert(ai == n && bi == m);
                lemma_first_mismatch_decides_insertion(b@, a@, p);
                assert forall|i: int| 0 <= i < m implies #[trigger] a@.remove(p)[i] == b[i] by {
                }
                assert(a@.remove(p) =~= b@);
            }
            assert(!at_most_one_substitution(a@, b@));
            assert(!one_insertion(a@, b@));
        }
    }
    r
}

/// ASCII lowercase of one byte.
pub open spec fn ascii_lower(c: u8) -> u8 {
    if 65 <= c <= 90 {
        (c + 32) as u8
    } else {
        c
    }
}

/// `a` and `b` are equal up to ASCII case.
pub open spec fn ascii_case_eq(a: Seq<u8>, b: Seq<u8>) -> bool {
    a.len() == b.len() && forall|i: int| 0 <= i < a.len() ==> #[trigger] ascii_lower(a[i])
        == ascii_lower(b[i])
}

/// Whether two byte strings match up to ASCII case (`str::eq_ignore_ascii_case`).
pub fn eq_ignore_ascii_case(a: &[u8], b: &[u8]) -> (r: bool)
    ensures
        r == ascii_case_eq(a@, b@),
{
    if a.len() != b.len() {
        return false;
    }
    let mut i: usize = 0;
    while i < a.len()
        invariant
            a.len() == b.len(),
            i <= a.len(),
            forall|k: int| 0 <= k < i ==> #[trigger] ascii_lower(a[k]) == ascii_lower(b[k]),
        decreases a.len() - i,
    {
        let x = if 65 <= a[i] && a[i] <= 90 { a[i] + 32 } else { a[i] };
        let y = if 65 <= b[i] && b[i] <= 90 { b[i] + 32 } else { b[i] };
        assert(x == ascii_lower(a[i as int]) && y == ascii_lower(b[i as int]));
        if x != y {
            return false;
        }
        i = i + 1;
    }
    true
}

/// Canonical material-control property names that must never appear in material uniforms.
pub open spec fn control_names() -> Seq<Seq<char>> {
    seq![
        "_SrcBlend"@,
        "_SrcBlendBase"@,
        "_SrcBlendAdd"@,
        "_DstBlend"@,
        "_DstBlendBase"@,
        "_DstBlendAdd"@,
        "_ZWrite"@,
        "_ZTest"@,
        "_Cull"@,
        "_Culling"@,
        "_Stencil"@,
        "_StencilComp"@,
        "_StencilOp"@,
        "_StencilFail"@,
        "_StencilZFail"@,
        "_StencilReadMask"@,
        "_StencilWriteMask"@,
        "_ColorMask"@,
        "_OffsetFactor"@,
        "_OffsetUnits"@,
        "_RenderQueue"@,
    ]
}

/// The canonical material-control property names, in declaration order.
pub fn material_control_property_names() -> (r: Vec<&'static str>)
    ensures
        r@.len() == control_names().len(),
        forall|i: int| 0 <= i < r@.len() ==> #[trigger] r@[i]@ == control_names()[i],
{
    let r = vec![
        "_SrcBlend",
        "_SrcBlendBase",
        "_SrcBlendAdd",
        "_DstBlend",
        "_DstBlendBase",
        "_DstBlendAdd",
        "_ZWrite",
        "_ZTest",
        "_Cull",
        "_Culling",
        "_Stencil",
        "_StencilComp",
        "_StencilOp",
        "_StencilFail",
        "_StencilZFail",
        "_StencilReadMask",
        "_StencilWriteMask",
        "_ColorMask",
        "_OffsetFactor",
        "_OffsetUnits",
        "_RenderQueue",
    ];
    r
}

/// `name` is a likely spelling of `canonical`: equal up to ASCII case, or one byte edit away.
pub open spec fn confusable(name: Seq<char>, canonical: Seq<char>) -> bool {
    ascii_case_eq(encode_utf8(name), encode_utf8(canonical)) || within_one_edit(
        encode_utf8(name),
        encode_utf8(canonical),
    )
}

/// Whether `name` is exactly one of the canonical material-control names.
pub open spec fn is_control_name(name: Seq<char>) -> bool {
    exists|i: int| 0 <= i < control_names().len() && control_names()[i] == name
}

/// Whether `name` is exactly one of the canonical material-control property names.
pub fn is_material_control_property_name(name: &str) -> (r: bool)
    ensures
        r == is_control_name(name@),
{
    let names = material_control_property_names();
    let mut i: usize = 0;
    while i < names.len()
        invariant
            i <= names.len(),
            names@.len() == control_names().len(),
            forall|k: int| 0 <= k < names@.len() ==> #[trigger] names@[k]@ == control_names()[k],
            forall|k: int| 0 <= k < i ==> control_names()[k] != name@,
        decreases names.len() - i,
    {
        let canonical: &str = names[i];
        if eq_str(canonical, name) {
            return true;
        }
        i = i + 1;
    }
    false
}

/// Whether two strings are equal.
pub fn eq_str(a: &str, b: &str) -> (r: bool)
    ensures
        r == (a@ == b@),
{
    let ab = a.as_bytes();
    let bb = b.as_bytes();
    let mut same = ab.len() == bb.len();
    let mut i: usize = 0;
    while same && i < ab.len()
        invariant
            same ==> ab.len() == bb.len(),
            i <= ab.len(),
            same ==> forall|k: int| 0 <= k < i ==> ab[k] == bb[k],
            !same ==> ab@ != bb@,
        decreases ab.len() - i,
    {
        if ab[i] != bb[i] {
            same = false;
        }
        i = i + 1;
    }
    proof {
        if same {
            assert(ab@ =~= bb@);
        }
        vstd::utf8::encode_utf8_decode_utf8(a@);
        vstd::utf8::encode_utf8_decode_utf8(b@);
    }
    same
}

/// The first canonical material-control property name that `name` looks like, in declaration
/// order: equal up to ASCII case or one byte edit away.
pub fn confusing_material_control_property_name(name: &str) -> (r: Option<&'static str>)
    ensures
        r matches Some(c) ==> exists|i: int|
            0 <= i < control_names().len() && control_names()[i] == c@ && confusable(
                name@,
                control_names()[i],
            ) && forall|j: int| 0 <= j < i ==> !confusable(name@, #[trigger] control_names()[j]),
        r is None ==> forall|j: int|
            0 <= j < control_names().len() ==> !confusable(name@, #[trigger] control_names()[j]),
{
    let names = material_control_property_names();
    let mut i: usize = 0;
    while i < names.len()
        invariant
            i <= names.len(),
            names@.len() == control_names().len(),
            forall|k: int| 0 <= k < names@.len() ==> #[trigger] names@[k]@ == control_names()[k],
            forall|j: int| 0 <= j < i ==> !confusable(name@, #[trigger] control_names()[j]),
        decreases names.len() - i,
    {
        let canonical: &'static str = names[i];
        if eq_ignore_ascii_case(name.as_bytes(), canonical.as_bytes()) || edit_distance_at_most_one(
            name,
            canonical,
        ) {
            proof {
                assert(names@[i as int]@ == control_names()[i as int]);
            }
            return Some(canonical);
        }
        i = i + 1;
    }
    None
}

} // verus!
