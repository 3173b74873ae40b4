//! Lexicographic order on integer sequences, and a stable merge sort of keyed values by it.

use vstd::prelude::*;

verus! {

/// Lexicographic "less than" on integer sequences; a proper prefix sorts first.
pub open spec fn lex_lt(a: Seq<i128>, b: Seq<i128>) -> bool
    decreases a.len(),
{
    if a.len() == 0 {
        b.len() > 0
    } else if b.len() == 0 {
        false
    } else if a[0] != b[0] {
        a[0] < b[0]
    } else {
        lex_lt(a.drop_first(), b.drop_first())
    }
}

/// `lex_lt` is irreflexive.
pub proof fn lemma_lex_lt_irreflexive(a: Seq<i128>)
    ensures
        !lex_lt(a, a),
    decreases a.len(),
{
    if a.len() > 0 {
        lemma_lex_lt_irreflexive(a.drop_first());
    }
}

/// `lex_lt` is transitive.
pub proof fn lemma_lex_lt_transitive(a: Seq<i128>, b: Seq<i128>, c: Seq<i128>)
    requires
        lex_lt(a, b),
        lex_lt(b, c),
    ensures
        lex_lt(a, c),
    decreases a.len(),
{
    if a.len() > 0 && b.len() > 0 && c.len() > 0 && a[0] == b[0] && b[0] == c[0] {
        lemma_lex_lt_transitive(a.drop_first(), b.drop_first(), c.drop_first());
    }
}

/// Two distinct sequences are comparable under `lex_lt`.
pub proof fn lemma_lex_lt_total(a: Seq<i128>, b: Seq<i128>)
    ensures
        a == b || lex_lt(a, b) || lex_lt(b, a),
    decreases a.len(),
{
    if a.len() == 0 && b.len() == 0 {
        assert(a =~= b);
    } else if a.len() > 0 && b.len() > 0 && a[0] == b[0] {
        lemma_lex_lt_total(a.drop_first(), b.drop_first());
        if a.drop_first() == b.drop_first() {
            assert(a.drop_first().len() == b.drop_first().len());
            assert(a.len() == b.len());
            assert forall|i: int| 0 <= i < a.len() implies a[i] == b[i] by {
                if i > 0 {
                    assert(a[i] == a.drop_first()[i - 1]);
                    assert(b[i] == b.drop_first()[i - 1]);
                }
            }
            assert(a =~= b);
        }
    }
}

/// `lex_lt` is a strict total order: irreflexive, transitive, and any two distinct sequences
/// are comparable.
pub proof fn lemma_lex_lt_order(a: Seq<i128>, b: Seq<i128>, c: Seq<i128>)
    ensures
        !lex_lt(a, a),
        lex_lt(a, b) && lex_lt(b, c) ==> lex_lt(a, c),
        a == b || lex_lt(a, b) || lex_lt(b, a),
{
    lemma_lex_lt_irreflexive(a);
    if lex_lt(a, b) && lex_lt(b, c) {
        lemma_lex_lt_transitive(a, b, c);
    }
    lemma_lex_lt_total(a, b);
}

/// Whether `a` sorts before `b`.
pub fn lex_less(a: &Vec<i128>, b: &Vec<i128>) -> (r: bool)
    ensures
        r == lex_lt(a@, b@),
{
    let mut i: usize = 0;
    assert(a@.skip(0) =~= a@ && b@.skip(0) =~= b@);
    while i < a.len() && i < b.len()
        invariant
            i <= a.len(),
            i <= b.len(),
            lex_lt(a@, b@) == lex_lt(a@.skip(i as int), b@.skip(i as int)),
        decreases a.len() - i,
    {
        assert(a@.skip(i as int)[0] == a@[i as int] && b@.skip(i as int)[0] == b@[i as int]);
        if a[i] != b[i] {
            return a[i] < b[i];
        }
        assert(a@.skip(i as int).drop_first() =~= a@.skip(i + 1));
        assert(b@.skip(i as int).drop_first() =~= b@.skip(i + 1));
        i = i + 1;
    }
    i < b.len()
}

/// Keys and values of keyed pairs, as sequences.
pub open spec fn keyed_view<T>(s: Seq<(Vec<i128>, T)>) -> Seq<(Seq<i128>, T)> {
    s.map_values(|e: (Vec<i128>, T)| (e.0@, e.1))
}

/// Some position of `p` holds `q`.
pub open spec fn hits(p: Seq<int>, q: int) -> bool {
    exists|i: int| 0 <= i < p.len() && #[trigger] p[i] == q
}

/// `p` shows that `output` is `input` sorted by key, equal keys keeping input order: position
/// `i` of `output` holds element `p[i]` of `input`, every element is used exactly once, and
/// positions are ordered by (key, input position).
pub open spec fn stable_sort_witness<T>(
    input: Seq<(Seq<i128>, T)>,
    output: Seq<(Seq<i128>, T)>,
    p: Seq<int>,
) -> bool {
    &&& p.len() == input.len()
    &&& output.len() == input.len()
    &&& forall|i: int| 0 <= i < p.len() ==> 0 <= #[trigger] p[i] < input.len() && output[i] == input[p[i]]
    &&& forall|i: int, j: int| 0 <= i < j < p.len() ==> #[trigger] p[i] != #[trigger] p[j]
    &&& forall|q: int| 0 <= q < input.len() ==> #[trigger] hits(p, q)
    &&& forall|i: int, j: int|
        0 <= i < j < p.len() ==> lex_lt(#[trigger] output[i].0, #[trigger] output[j].0) || (
        output[i].0 == output[j].0 && p[i] < p[j])
}

/// `output` is `input` stably sorted by key.
pub open spec fn is_stable_sort<T>(input: Seq<(Seq<i128>, T)>, output: Seq<(Seq<i128>, T)>) -> bool {
    exists|p: Seq<int>| #[trigger] stable_sort_witness(input, output, p)
}

/// Key `k1` at position `p1` comes before key `k2` at position `p2` in a stable order.
pub open spec fn precedes(k1: Seq<i128>, p1: int, k2: Seq<i128>, p2: int) -> bool {
    lex_lt(k1, k2) || (k1 == k2 && p1 < p2)
}

/// Sorting both halves stably and then stably sorting their concatenation sorts the
/// concatenation of the halves stably.
proof fn lemma_stable_sort_compose<T>(
    l: Seq<(Seq<i128>, T)>,
    r: Seq<(Seq<i128>, T)>,
    ls: Seq<(Seq<i128>, T)>,
    rs: Seq<(Seq<i128>, T)>,
    o: Seq<(Seq<i128>, T)>,
)
    requires
        is_stable_sort(l, ls),
        is_stable_sort(r, rs),
        is_stable_sort(ls + rs, o),
    ensures
        is_stable_sort(l + r, o),
{
    let pl = choose|p: Seq<int>| #[trigger] stable_sort_witness(l, ls, p);
    let pr = choose|p: Seq<int>| #[trigger] stable_sort_witness(r, rs, p);
    let pm = choose|p: Seq<int>| #[trigger] stable_sort_witness(ls + rs, o, p);
    let nl = l.len() as int;
    let lr = l + r;
    let m = ls + rs;
    let p = Seq::new(
        pm.len(),
        |i: int| if pm[i] < nl {
            pl[pm[i]]
        } else {
            nl + pr[pm[i] - nl]
        },
    );
    assert forall|i: int| 0 <= i < p.len() implies 0 <= #[trigger] p[i] < lr.len() && o[i] == lr[p[i]] by {
        assert(o[i] == m[pm[i]]);
        if pm[i] < nl {
            assert(m[pm[i]] == ls[pm[i]]);
            assert(ls[pm[i]] == l[pl[pm[i]]]);
        } else {
            assert(m[pm[i]] == rs[pm[i] - nl]);
            assert(rs[pm[i] - nl] == r[pr[pm[i] - nl]]);
        }
    }
    assert forall|i: int, j: int| 0 <= i < j < p.len() implies #[trigger] p[i] != #[trigger] p[j] by {
        assert(pm[i] != pm[j]);
        if pm[i] < nl && pm[j] < nl {
            if pm[i] < pm[j] {
                assert(pl[pm[i]] != pl[pm[j]]);
            } else {
                assert(pl[pm[j]] != pl[pm[i]]);
            }
        } else if pm[i] >= nl && pm[j] >= nl {
            if pm[i] < pm[j] {
                assert(pr[pm[i] - nl] != pr[pm[j] - nl]);
            } else {
                assert(pr[pm[j] - nl] != pr[pm[i] - nl]);
            }
        }
    }
    assert forall|q: int| 0 <= q < lr.len() implies #[trigger] hits(p, q) by {
        if q < nl {
            assert(hits(pl, q));
            let a = choose|a: int| 0 <= a < pl.len() && #[trigger] pl[a] == q;
            assert(hits(pm, a));
            let i = choose|i: int| 0 <= i < pm.len() && #[trigger] pm[i] == a;
            assert(p[i] == q);
        } else {
            assert(hits(pr, q - nl));
            let a = choose|a: int| 0 <= a < pr.len() && #[trigger] pr[a] == q - nl;
            assert(hits(pm, nl + a));
            let i = choose|i: int| 0 <= i < pm.len() && #[trigger] pm[i] == nl + a;
            assert(p[i] == q);
        }
    }
    assert forall|i: int, j: int| 0 <= i < j < p.len() implies lex_lt(#[trigger] o[i].0, #[trigger] o[j].0)
        || (o[i].0 == o[j].0 && p[i] < p[j]) by {
        assert(lex_lt(o[i].0, o[j].0) || (o[i].0 == o[j].0 && pm[i] < pm[j]));
        if !lex_lt(o[i].0, o[j].0) {
            if pm[i] < nl && pm[j] < nl {
                assert(lex_lt(ls[pm[i]].0, ls[pm[j]].0) || (ls[pm[i]].0 == ls[pm[j]].0 && pl[pm[i]] < pl[pm[j]]));
                lemma_lex_lt_irreflexive(o[i].0);
            } else if pm[i] >= nl && pm[j] >= nl {
                assert(lex_lt(rs[pm[i] - nl].0, rs[pm[j] - nl].0) || (rs[pm[i] - nl].0 == rs[pm[j] - nl].0
                    && pr[pm[i] - nl] < pr[pm[j] - nl]));
                lemma_lex_lt_irreflexive(o[i].0);
            }
        }
    }
    assert(stable_sort_witness(lr, o, p));
}

/// Keys of `s` never decrease, and positions break ties.
pub open spec fn key_sorted<T>(s: Seq<(Seq<i128>, T)>) -> bool {
    forall|x: int, y: int| 0 <= x < y < s.len() ==> #[trigger] precedes(s[x].0, x, s[y].0, y)
}

/// The output of a stable sort is sorted by key.
proof fn lemma_stable_sort_is_sorted<T>(input: Seq<(Seq<i128>, T)>, output: Seq<(Seq<i128>, T)>)
    requires
        is_stable_sort(input, output),
    ensures
        key_sorted(output),
{
    let p = choose|p: Seq<int>| #[trigger] stable_sort_witness(input, output, p);
    assert forall|x: int, y: int| 0 <= x < y < output.len() implies #[trigger] precedes(
        output[x].0,
        x,
        output[y].0,
        y,
    ) by {
        assert(lex_lt(output[x].0, output[y].0) || (output[x].0 == output[y].0 && p[x] < p[y]));
    }
}

/// What the merge has done so far: `out` holds, in stable order, the first `i` elements of the
/// left half and the first `j` of the right half of `ab` (the left half has `na` elements),
/// and each of them precedes every element still to be merged.
pub open spec fn merge_progress<T>(
    ab: Seq<(Seq<i128>, T)>,
    na: int,
    i: int,
    j: int,
    out: Seq<(Seq<i128>, T)>,
    p: Seq<int>,
) -> bool {
    &&& 0 <= i <= na
    &&& 0 <= j <= ab.len() - na
    &&& out.len() == i + j
    &&& p.len() == i + j
    &&& forall|k: int|
        0 <= k < p.len() ==> ((0 <= #[trigger] p[k] < i) || (na <= p[k] < na + j)) && out[k]
            == ab[p[k]]
    &&& forall|k: int, l: int| 0 <= k < l < p.len() ==> #[trigger] p[k] != #[trigger] p[l]
    &&& forall|q: int| (0 <= q < i || na <= q < na + j) ==> #[trigger] hits(p, q)
    &&& forall|k: int, l: int|
        0 <= k < l < p.len() ==> precedes(#[trigger] out[k].0, p[k], #[trigger] out[l].0, p[l])
    &&& forall|k: int, q: int|
        0 <= k < p.len() && (i <= q < na || na + j <= q < ab.len()) ==> #[trigger] precedes(
            out[k].0,
            p[k],
            ab[q].0,
            q,
        )
}

/// Taking element `t` of `ab` next keeps the merge in order, when it precedes every element
/// that is still to be merged after it.
proof fn lemma_merge_step<T>(
    ab: Seq<(Seq<i128>, T)>,
    na: int,
    i: int,
    j: int,
    out: Seq<(Seq<i128>, T)>,
    p: Seq<int>,
    from_left: bool,
    t: int,
)
    requires
        merge_progress(ab, na, i, j, out, p),
        t == (if from_left { i } else { na + j }),
        from_left ==> i < na,
        !from_left ==> na + j < ab.len(),
        forall|q: int|
            (i <= q < na || na + j <= q < ab.len()) && q != t ==> #[trigger] precedes(
                ab[t].0,
                t,
                ab[q].0,
                q,
            ),
    ensures
        merge_progress(
            ab,
            na,
            if from_left { i + 1 } else { i },
            if from_left { j } else { j + 1 },
            out.push(ab[t]),
            p.push(t),
        ),
{
    let ni = if from_left { i + 1 } else { i };
    let nj = if from_left { j } else { j + 1 };
    let o2 = out.push(ab[t]);
    let p2 = p.push(t);
    assert forall|k: int| 0 <= k < p2.len() implies ((0 <= #[trigger] p2[k] < ni) || (na <= p2[k] < na
        + nj)) && o2[k] == ab[p2[k]] by {
        if k < p.len() {
            assert(p2[k] == p[k]);
        }
    }
    assert forall|k: int, l: int| 0 <= k < l < p2.len() implies #[trigger] p2[k] != #[trigger] p2[l] by {
        if l < p.len() {
            assert(p[k] != p[l]);
        } else {
            assert(p2[k] == p[k]);
        }
    }
    assert forall|q: int| (0 <= q < ni || na <= q < na + nj) implies #[trigger] hits(p2, q) by {
        if q == t {
            assert(p2[p.len() as int] == t);
        } else {
            assert(hits(p, q));
            let k = choose|k: int| 0 <= k < p.len() && #[trigger] p[k] == q;
            assert(p2[k] == q);
        }
    }
    assert forall|k: int, l: int| 0 <= k < l < p2.len() implies precedes(
        #[trigger] o2[k].0,
        p2[k],
        #[trigger] o2[l].0,
        p2[l],
    ) by {
        if l < p.len() {
            assert(precedes(out[k].0, p[k], out[l].0, p[l]));
        } else {
            assert(precedes(out[k].0, p[k], ab[t].0, t));
        }
    }
    assert forall|k: int, q: int|
        0 <= k < p2.len() && (ni <= q < na || na + nj <= q < ab.len()) implies #[trigger] precedes(
        o2[k].0,
        p2[k],
        ab[q].0,
        q,
    ) by {
        if k < p.len() {
            assert(precedes(out[k].0, p[k], ab[q].0, q));
        } else {
            assert(precedes(ab[t].0, t, ab[q].0, q));
        }
    }
}

/// A merge that has taken every element is a stable sort of `ab`, when each half of `ab` was
/// sorted.
proof fn lemma_merge_done<T>(
    ab: Seq<(Seq<i128>, T)>,
    na: int,
    out: Seq<(Seq<i128>, T)>,
    p: Seq<int>,
)
    requires
        merge_progress(ab, na, na, ab.len() - na, out, p),
    ensures
        is_stable_sort(ab, out),
{
    assert forall|i: int| 0 <= i < p.len() implies 0 <= #[trigger] p[i] < ab.len() && out[i] == ab[p[i]] by {}
    assert forall|q: int| 0 <= q < ab.len() implies #[trigger] hits(p, q) by {}
    assert forall|i: int, j: int| 0 <= i < j < p.len() implies lex_lt(#[trigger] out[i].0, #[trigger] out[j].0)
        || (out[i].0 == out[j].0 && p[i] < p[j]) by {
        assert(precedes(out[i].0, p[i], out[j].0, p[j]));
    }
    assert(stable_sort_witness(ab, out, p));
}

/// Merges two key-sorted runs into one, taking from the left run on equal keys.
fn merge_sorted<T>(a: Vec<(Vec<i128>, T)>, b: Vec<(Vec<i128>, T)>) -> (out: Vec<(Vec<i128>, T)>)
    requires
        key_sorted(keyed_view(a@)),
        key_sorted(keyed_view(b@)),
    ensures
        is_stable_sort(keyed_view(a@) + keyed_view(b@), keyed_view(out@)),
{
    let ghost ka = keyed_view(a@);
    let ghost kb = keyed_view(b@);
    let ghost ab = ka + kb;
    let ghost na = ka.len() as int;
    let mut ra = reversed(a);
    let mut rb = reversed(b);
    let mut out: Vec<(Vec<i128>, T)> = Vec::new();
    let ghost mut p: Seq<int> = Seq::empty();
    let ghost mut i: int = 0;
    let ghost mut j: int = 0;
    proof {
        assert(merge_progress(ab, na, 0, 0, keyed_view(out@), p));
    }
    while ra.len() > 0 || rb.len() > 0
        invariant
            ab == ka + kb,
            na == ka.len(),
            key_sorted(ka),
            key_sorted(kb),
            ra.len() == na - i,
            rb.len() == kb.len() - j,
            forall|t: int| 0 <= t < ra.len() ==> #[trigger] keyed_view(ra@)[t] == ka[na - 1 - t],
            forall|t: int|
                0 <= t < rb.len() ==> #[trigger] keyed_view(rb@)[t] == kb[kb.len() - 1 - t],
            merge_progress(ab, na, i, j, keyed_view(out@), p),
        decreases ra.len() + rb.len(),
    {
        let ghost kra = keyed_view(ra@);
        let ghost krb = keyed_view(rb@);
        let take_left = if ra.len() == 0 {
            false
        } else if rb.len() == 0 {
            true
        } else {
            !lex_less(&rb[rb.len() - 1].0, &ra[ra.len() - 1].0)
        };
        let ghost t = if take_left {
            i
        } else {
            na + j
        };
        proof {
            if ra.len() > 0 {
                assert(kra[ra.len() - 1] == ka[i]);
            }
            if rb.len() > 0 {
                assert(krb[rb.len() - 1] == kb[j]);
            }
            assert forall|q: int| (i <= q < na || na + j <= q < ab.len()) && q != t implies #[trigger] precedes(
                ab[t].0,
                t,
                ab[q].0,
                q,
            ) by {
                if take_left {
                    assert(ab[t] == ka[i]);
                    if q < na {
                        assert(ab[q] == ka[q]);
                        assert(precedes(ka[i].0, i, ka[q].0, q));
                    } else {
                        assert(ab[q] == kb[q - na]);
                        lemma_lex_lt_order(ka[i].0, kb[j].0, kb[q - na].0);
                        lemma_lex_lt_order(kb[j].0, ka[i].0, ka[i].0);
                        if q - na > j {
                            assert(precedes(kb[j].0, j, kb[q - na].0, q - na));
                        }
                    }
                } else {
                    assert(ab[t] == kb[j]);
                    if q < na {
                        assert(ab[q] == ka[q]);
                        lemma_lex_lt_order(kb[j].0, ka[i].0, ka[q].0);
                        if q > i {
                            assert(precedes(ka[i].0, i, ka[q].0, q));
                        }
                    } else {
                        assert(ab[q] == kb[q - na]);
                        assert(precedes(kb[j].0, j, kb[q - na].0, q - na));
                    }
                }
            }
            lemma_merge_step(ab, na, i, j, keyed_view(out@), p, take_left, t);
        }
        let ghost old_out = keyed_view(out@);
        let e = if take_left {
            ra.pop().unwrap()
        } else {
            rb.pop().unwrap()
        };
        proof {
            if take_left {
                assert((e.0@, e.1) == kra[kra.len() - 1]);
            } else {
                assert((e.0@, e.1) == krb[krb.len() - 1]);
            }
        }
        out.push(e);
        proof {
            assert(keyed_view(out@) =~= old_out.push(ab[t]));
            p = p.push(t);
            if take_left {
                i = i + 1;
                assert forall|u: int| 0 <= u < ra.len() implies #[trigger] keyed_view(ra@)[u] == ka[na - 1 - u] by {
                    assert(keyed_view(ra@)[u] == kra[u]);
                }
                assert(keyed_view(rb@) == krb);
            } else {
                j = j + 1;
                assert forall|u: int| 0 <= u < rb.len() implies #[trigger] keyed_view(rb@)[u] == kb[kb.len() - 1 - u] by {
                    assert(keyed_view(rb@)[u] == krb[u]);
                }
                assert(keyed_view(ra@) == kra);
            }
        }
    }
    proof {
        lemma_merge_done(ab, na, keyed_view(out@), p);
    }
    out
}

/// Sorts keyed values by key, keeping the input order of equal keys (a merge sort).
pub fn stable_sort_by_key<T>(input: Vec<(Vec<i128>, T)>) -> (out: Vec<(Vec<i128>, T)>)
    ensures
        is_stable_sort(keyed_view(input@), keyed_view(out@)),
    decreases input.len(),
{
    let ghost inp = keyed_view(input@);
    if input.len() <= 1 {
        proof {
            let p = Seq::new(inp.len(), |i: int| i);
            assert forall|q: int| 0 <= q < inp.len() implies #[trigger] hits(p, q) by {
                assert(p[q] == q);
            }
            assert(stable_sort_witness(inp, inp, p));
        }
        return input;
    }
    let mut left = input;
    let mid: usize = left.len() / 2;
    let right = left.split_off(mid);
    let ghost kl = keyed_view(left@);
    let ghost kr = keyed_view(right@);
    assert(inp =~= kl + kr);
    let sorted_left = stable_sort_by_key(left);
    let sorted_right = stable_sort_by_key(right);
    let ghost sl = keyed_view(sorted_left@);
    let ghost sr = keyed_view(sorted_right@);
    proof {
        lemma_stable_sort_is_sorted(kl, sl);
        lemma_stable_sort_is_sorted(kr, sr);
    }
    let out = merge_sorted(sorted_left, sorted_right);
    proof {
        lemma_stable_sort_compose(kl, kr, sl, sr, keyed_view(out@));
    }
    out
}

/// In a stable sort, equal keys end up contiguous: anything between two elements with the same
/// key has that key too.
pub proof fn lemma_stable_sort_groups_equal_keys<T>(
    input: Seq<(Seq<i128>, T)>,
    output: Seq<(Seq<i128>, T)>,
    i: int,
    j: int,
    m: int,
)
    requires
        is_stable_sort(input, output),
        0 <= i < j < m < output.len(),
        output[i].0 == output[m].0,
    ensures
        output[j].0 == output[i].0,
{
    let p = choose|p: Seq<int>| #[trigger] stable_sort_witness(input, output, p);
    assert(lex_lt(output[i].0, output[j].0) || output[i].0 == output[j].0);
    assert(lex_lt(output[j].0, output[m].0) || output[j].0 == output[m].0);
    lemma_lex_lt_order(output[i].0, output[j].0, output[m].0);
    lemma_lex_lt_order(output[j].0, output[m].0, output[m].0);
}

/// The values of keyed pairs, in order.
pub open spec fn values_of<T>(s: Seq<(Seq<i128>, T)>) -> Seq<T> {
    s.map_values(|e: (Seq<i128>, T)| e.1)
}

/// Number of maximal runs of equal keys.
pub open spec fn key_runs<T>(s: Seq<(Seq<i128>, T)>) -> nat
    decreases s.len(),
{
    if s.len() == 0 {
        0
    } else if s.len() == 1 {
        1
    } else {
        key_runs(s.drop_last()) + if s[s.len() - 1].0 != s[s.len() - 2].0 {
            1nat
        } else {
            0nat
        }
    }
}

/// The set of keys of keyed pairs.
pub open spec fn key_set<T>(s: Seq<(Seq<i128>, T)>) -> Set<Seq<i128>> {
    s.map_values(|e: (Seq<i128>, T)| e.0).to_set()
}

/// In a sequence sorted by key, the runs of equal keys are as many as the distinct keys.
proof fn lemma_sorted_runs_count_keys<T>(s: Seq<(Seq<i128>, T)>, n: int)
    requires
        0 <= n <= s.len(),
        forall|i: int, j: int|
            0 <= i < j < s.len() ==> lex_lt(#[trigger] s[i].0, #[trigger] s[j].0) || s[i].0
                == s[j].0,
    ensures
        key_runs(s.take(n)) == key_set(s.take(n)).len(),
        key_set(s.take(n)).finite(),
    decreases n,
{
    let t = s.take(n);
    let keys = t.map_values(|e: (Seq<i128>, T)| e.0);
    vstd::seq_lib::seq_to_set_is_finite(keys);
    if n == 0 {
        assert(keys =~= Seq::<Seq<i128>>::empty());
        assert(key_set(t) =~= Set::<Seq<i128>>::empty());
    } else {
        let prev = s.take(n - 1);
        let pkeys = prev.map_values(|e: (Seq<i128>, T)| e.0);
        lemma_sorted_runs_count_keys(s, n - 1);
        assert(t.drop_last() =~= prev);
        assert(keys =~= pkeys.push(s[n - 1].0));
        assert(key_set(t) =~= key_set(prev).insert(s[n - 1].0)) by {
            assert forall|k: Seq<i128>| key_set(t).contains(k) <==> key_set(prev).insert(s[n - 1].0).contains(k) by {
                if key_set(t).contains(k) {
                    let i = choose|i: int| 0 <= i < keys.len() && keys[i] == k;
                    if i < n - 1 {
                        assert(pkeys[i] == k);
                    }
                }
                if key_set(prev).contains(k) {
                    let i = choose|i: int| 0 <= i < pkeys.len() && pkeys[i] == k;
                    assert(keys[i] == k);
                }
                if k == s[n - 1].0 {
                    assert(keys[n - 1] == k);
                }
            }
        }
        if n == 1 {
            assert(key_set(prev) =~= Set::<Seq<i128>>::empty()) by {
                assert(pkeys =~= Seq::<Seq<i128>>::empty());
            }
        } else {
            assert(t[n - 1] == s[n - 1] && t[n - 2] == s[n - 2]);
            if s[n - 1].0 != s[n - 2].0 {
                assert(!key_set(prev).contains(s[n - 1].0)) by {
                    if key_set(prev).contains(s[n - 1].0) {
                        let i = choose|i: int| 0 <= i < pkeys.len() && pkeys[i] == s[n - 1].0;
                        assert(s[i].0 == s[n - 1].0);
                        lemma_lex_lt_order(s[n - 2].0, s[n - 1].0, s[n - 1].0);
                        if i < n - 2 {
                            assert(lex_lt(s[i].0, s[n - 2].0) || s[i].0 == s[n - 2].0);
                            lemma_lex_lt_order(s[i].0, s[n - 2].0, s[n - 1].0);
                            lemma_lex_lt_order(s[n - 1].0, s[n - 1].0, s[n - 1].0);
                        }
                    }
                }
            } else {
                assert(key_set(prev).contains(s[n - 1].0)) by {
                    assert(pkeys[n - 2] == s[n - 1].0);
                }
            }
        }
    }
}

/// A stable sort has as many runs of equal keys as its input has distinct keys.
pub proof fn lemma_stable_sort_runs_count_keys<T>(
    input: Seq<(Seq<i128>, T)>,
    output: Seq<(Seq<i128>, T)>,
)
    requires
        is_stable_sort(input, output),
    ensures
        key_runs(output) == key_set(input).len(),
{
    let p = choose|p: Seq<int>| #[trigger] stable_sort_witness(input, output, p);
    assert forall|i: int, j: int| 0 <= i < j < output.len() implies lex_lt(
        #[trigger] output[i].0,
        #[trigger] output[j].0,
    ) || output[i].0 == output[j].0 by {}
    lemma_sorted_runs_count_keys(output, output.len() as int);
    assert(output.take(output.len() as int) =~= output);
    let ik = input.map_values(|e: (Seq<i128>, T)| e.0);
    let ok = output.map_values(|e: (Seq<i128>, T)| e.0);
    assert(key_set(output) =~= key_set(input)) by {
        assert forall|k: Seq<i128>| key_set(output).contains(k) <==> key_set(input).contains(k) by {
            if key_set(output).contains(k) {
                let i = choose|i: int| 0 <= i < ok.len() && ok[i] == k;
                assert(ik[p[i]] == k);
            }
            if key_set(input).contains(k) {
                let q = choose|q: int| 0 <= q < ik.len() && ik[q] == k;
                assert(hits(p, q));
                let i = choose|i: int| 0 <= i < p.len() && #[trigger] p[i] == q;
                assert(ok[i] == k);
            }
        }
    }
}

/// Whether two keys are equal.
pub fn keys_equal(a: &Vec<i128>, b: &Vec<i128>) -> (r: bool)
    ensures
        r == (a@ == b@),
{
    proof {
        lemma_lex_lt_order(a@, b@, a@);
        lemma_lex_lt_order(b@, a@, b@);
    }
    !lex_less(a, b) && !lex_less(b, a)
}

/// Counts the maximal runs of equal keys.
pub fn count_key_runs<T>(v: &Vec<(Vec<i128>, T)>) -> (r: usize)
    ensures
        r == key_runs(keyed_view(v@)),
{
    if v.len() == 0 {
        return 0;
    }
    let ghost s = keyed_view(v@);
    let mut runs: usize = 1;
    let mut i: usize = 1;
    assert(s.take(1).len() == 1);
    while i < v.len()
        invariant
            1 <= i <= v.len(),
            s == keyed_view(v@),
            runs == key_runs(s.take(i as int)),
            runs <= i,
        decreases v.len() - i,
    {
        let ghost t = s.take(i + 1);
        assert(t.drop_last() =~= s.take(i as int));
        assert(t[i as int].0 == v@[i as int].0@ && t[i - 1].0 == v@[i - 1].0@);
        if !keys_equal(&v[i].0, &v[i - 1].0) {
            runs = runs + 1;
        }
        i = i + 1;
    }
    assert(s.take(v.len() as int) =~= s);
    runs
}

/// Moves the elements of `v` into a new vector in reverse order.
pub fn reversed<T>(v: Vec<T>) -> (r: Vec<T>)
    ensures
        r.len() == v.len(),
        forall|i: int| 0 <= i < r.len() ==> #[trigger] r@[i] == v@[v.len() - 1 - i],
{
    let ghost s = v@;
    let mut rest = v;
    let mut r: Vec<T> = Vec::new();
    while rest.len() > 0
        invariant
            s.len() == r.len() + rest.len(),
            rest@ == s.take(rest.len() as int),
            forall|i: int| 0 <= i < r.len() ==> #[trigger] r@[i] == s[s.len() - 1 - i],
        decreases rest.len(),
    {
        let ghost n = rest.len() as int;
        let e = rest.pop().unwrap();
        assert(e == s[n - 1]);
        assert(rest@ =~= s.take(n - 1));
        r.push(e);
    }
    r
}

/// Drops the keys of keyed pairs, keeping the values in order.
pub fn strip_keys<T>(v: Vec<(Vec<i128>, T)>) -> (r: Vec<T>)
    ensures
        r@ == values_of(keyed_view(v@)),
{
    let ghost s = keyed_view(v@);
    let n: usize = v.len();
    let mut rest = reversed(v);
    let mut r: Vec<T> = Vec::new();
    while rest.len() > 0
        invariant
            n == s.len(),
            s.len() == r.len() + rest.len(),
            forall|i: int| 0 <= i < rest.len() ==> (#[trigger] rest@[i]).1 == s[n - 1 - i].1,
            forall|i: int| 0 <= i < r.len() ==> #[trigger] r@[i] == s[i].1,
        decreases rest.len(),
    {
        let ghost old_rest = rest@;
        let e = rest.pop().unwrap();
        assert(e == old_rest[old_rest.len() - 1]);
        assert(e.1 == s[r.len() as int].1);
        assert forall|i: int| 0 <= i < rest.len() implies (#[trigger] rest@[i]).1 == s[n - 1 - i].1 by {
            assert(rest@[i] == old_rest[i]);
        }
        r.push(e.1);
    }
    assert(r@ =~= values_of(s));
    r
}

} // verus!
