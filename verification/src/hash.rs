//! Perceptual hashes (64-bit dHash) and near-duplicate grouping.
//!
//! Two hashes are near duplicates when their Hamming distance is within a
//! threshold (0 to 64). All-zero hashes (flat images) are never grouped.
//! Groups are the transitive closure of the near-duplicate relation; every
//! pair of images is compared, so no pair within the threshold is missed.

use vstd::prelude::*;

use crate::text::{lemma_lex_irreflexive, lemma_lex_total, lemma_lex_transitive, lex_lt, str_lt};

verus! {

/// Number of set bits.
pub open spec fn popcount(x: u64) -> nat
    decreases x,
{
    if x == 0 {
        0
    } else {
        (x % 2) as nat + popcount(x / 2)
    }
}

/// Hamming distance of two hashes.
pub open spec fn hamming_spec(a: u64, b: u64) -> nat {
    popcount(a ^ b)
}

/// Near-duplicate relation used for grouping.
pub open spec fn near_dup(hi: u64, hj: u64, threshold: u32) -> bool {
    &&& hi != 0
    &&& hj != 0
    &&& hamming_spec(hi, hj) <= threshold
}

proof fn lemma_popcount_step(x: u64)
    ensures
        x != 0 ==> popcount(x) == (x & 1) as nat + popcount(x >> 1),
        x & 1 == x % 2,
        x >> 1 == x / 2,
{
    assert(x & 1 == x % 2) by (bit_vector);
    assert(x >> 1 == x / 2) by (bit_vector);
}

proof fn lemma_shift_bound(x: u64, i: u32)
    requires
        x != 0,
        i <= 64,
        x <= (0xFFFF_FFFF_FFFF_FFFFu64 >> (i as u64)),
    ensures
        i < 64,
        (x >> 1) <= (0xFFFF_FFFF_FFFF_FFFFu64 >> ((i + 1) as u64)),
{
    let ii = i as u64;
    let jj = (i + 1) as u64;
    assert(x != 0 && ii <= 64 && jj == ii + 1 && x <= (0xFFFF_FFFF_FFFF_FFFFu64 >> ii) ==> ii < 64
        && (x >> 1) <= (0xFFFF_FFFF_FFFF_FFFFu64 >> jj)) by (bit_vector);
}

/// Hamming distance.
pub fn hamming(a: u64, b: u64) -> (d: u32)
    ensures
        d == hamming_spec(a, b),
        d <= 64,
{
    let mut x: u64 = a ^ b;
    let mut n: u32 = 0;
    let mut i: u32 = 0;
    assert(x <= (0xFFFF_FFFF_FFFF_FFFFu64 >> 0u64)) by (bit_vector);
    while x != 0
        invariant
            n + popcount(x) == popcount(a ^ b),
            i <= 64,
            n <= i,
            x <= (0xFFFF_FFFF_FFFF_FFFFu64 >> (i as u64)),
        decreases x,
    {
        proof {
            lemma_popcount_step(x);
            lemma_shift_bound(x, i);
        }
        n = n + (x & 1) as u32;
        x = x >> 1;
        i = i + 1;
    }
    n
}

/// Whether two hashes are near duplicates under `threshold`.
fn near_duplicate(hi: u64, hj: u64, threshold: u32) -> (r: bool)
    ensures
        r == near_dup(hi, hj, threshold),
{
    hi != 0 && hj != 0 && hamming(hi, hj) <= threshold
}

proof fn lemma_xor_sym(a: u64, b: u64)
    ensures
        a ^ b == b ^ a,
{
    assert(a ^ b == b ^ a) by (bit_vector);
}

/// The near-duplicate relation is symmetric.
pub proof fn lemma_near_dup_symmetric(hi: u64, hj: u64, threshold: u32)
    requires
        near_dup(hi, hj, threshold),
    ensures
        near_dup(hj, hi, threshold),
{
    lemma_xor_sym(hi, hj);
}

/// Entries `i` and `j` are distinct near duplicates of each other.
pub open spec fn linked(e: Seq<(String, u64)>, t: u32, i: usize, j: usize) -> bool {
    &&& i < e.len()
    &&& j < e.len()
    &&& i != j
    &&& near_dup(e[i as int].1, e[j as int].1, t)
}

proof fn lemma_linked_symmetric(e: Seq<(String, u64)>, t: u32, i: usize, j: usize)
    requires
        linked(e, t, i, j),
    ensures
        linked(e, t, j, i),
{
    lemma_near_dup_symmetric(e[i as int].1, e[j as int].1, t);
}

/// Order inside and between groups: by path, then by position.
pub open spec fn key_lt(e: Seq<(String, u64)>, a: usize, b: usize) -> bool {
    lex_lt(e[a as int].0@, e[b as int].0@) || (e[a as int].0@ == e[b as int].0@ && a < b)
}

proof fn lemma_key_order(e: Seq<(String, u64)>)
    ensures
        forall|a: usize| !#[trigger] key_lt(e, a, a),
        forall|a: usize, b: usize| a != b ==> #[trigger] key_lt(e, a, b) || #[trigger] key_lt(e, b, a),
        forall|a: usize, b: usize| #[trigger] key_lt(e, a, b) ==> !#[trigger] key_lt(e, b, a),
        forall|a: usize, b: usize, c: usize|
            #[trigger] key_lt(e, a, b) && #[trigger] key_lt(e, b, c) ==> key_lt(e, a, c),
{
    assert forall|a: usize| !#[trigger] key_lt(e, a, a) by {
        lemma_lex_irreflexive(e[a as int].0@);
    }
    assert forall|a: usize, b: usize| a != b implies #[trigger] key_lt(e, a, b) || #[trigger] key_lt(e, b, a) by {
        lemma_lex_total(e[a as int].0@, e[b as int].0@);
    }
    assert forall|a: usize, b: usize| #[trigger] key_lt(e, a, b) implies !#[trigger] key_lt(e, b, a) by {
        if lex_lt(e[a as int].0@, e[b as int].0@) && lex_lt(e[b as int].0@, e[a as int].0@) {
            lemma_lex_transitive(e[a as int].0@, e[b as int].0@, e[a as int].0@);
            lemma_lex_irreflexive(e[a as int].0@);
        }
        if lex_lt(e[a as int].0@, e[b as int].0@) {
            lemma_lex_irreflexive(e[a as int].0@);
        }
        if lex_lt(e[b as int].0@, e[a as int].0@) {
            lemma_lex_irreflexive(e[a as int].0@);
        }
    }
    assert forall|a: usize, b: usize, c: usize| #[trigger] key_lt(e, a, b) && #[trigger] key_lt(e, b, c) implies key_lt(e, a, c) by {
        let pa = e[a as int].0@;
        let pb = e[b as int].0@;
        let pc = e[c as int].0@;
        if lex_lt(pa, pb) && lex_lt(pb, pc) {
            lemma_lex_transitive(pa, pb, pc);
        }
    }
}

/// A set of entries that every split leaves with a near-duplicate pair across it
/// (the set is connected under the near-duplicate relation).
pub open spec fn connected_set(e: Seq<(String, u64)>, t: u32, c: Set<usize>) -> bool {
    forall|s: Set<usize>, a0: usize, b0: usize|
        #![trigger s.subset_of(c), s.contains(a0), c.contains(b0)]
        s.subset_of(c) && s.contains(a0) && c.contains(b0) && !s.contains(b0) ==> exists|a: usize, b: usize|
            s.contains(a) && c.contains(b) && !s.contains(b) && #[trigger] linked(e, t, a, b)
}

/// Entries whose label is `l`.
pub open spec fn class_of(lab: Seq<usize>, l: usize) -> Set<usize> {
    Set::new(|x: usize| x < lab.len() && lab[x as int] == l)
}

proof fn lemma_union_connected(
    e: Seq<(String, u64)>,
    t: u32,
    ca: Set<usize>,
    cb: Set<usize>,
    i: usize,
    j: usize,
)
    requires
        connected_set(e, t, ca),
        connected_set(e, t, cb),
        ca.contains(i),
        cb.contains(j),
        linked(e, t, i, j),
    ensures
        connected_set(e, t, ca.union(cb)),
{
    let c = ca.union(cb);
    assert forall|s: Set<usize>, a0: usize, b0: usize|
        #![trigger s.subset_of(c), s.contains(a0), c.contains(b0)]
        s.subset_of(c) && s.contains(a0) && c.contains(b0) && !s.contains(b0) implies exists|a: usize, b: usize|
            s.contains(a) && c.contains(b) && !s.contains(b) && #[trigger] linked(e, t, a, b) by {
        if s.contains(i) && !s.contains(j) {
            assert(linked(e, t, i, j));
        } else if !s.contains(i) && s.contains(j) {
            lemma_linked_symmetric(e, t, i, j);
            assert(linked(e, t, j, i));
        } else if s.contains(i) && s.contains(j) {
            if ca.contains(b0) {
                let sa = s.intersect(ca);
                assert(sa.subset_of(ca));
                assert(sa.contains(i));
                assert(ca.contains(b0));
                let (a, b) = choose|a: usize, b: usize| sa.contains(a) && ca.contains(b) && !sa.contains(b) && #[trigger] linked(e, t, a, b);
                assert(linked(e, t, a, b));
            } else {
                let sb = s.intersect(cb);
                assert(sb.subset_of(cb));
                assert(sb.contains(j));
                assert(cb.contains(b0));
                let (a, b) = choose|a: usize, b: usize| sb.contains(a) && cb.contains(b) && !sb.contains(b) && #[trigger] linked(e, t, a, b);
                assert(linked(e, t, a, b));
            }
        } else {
            if ca.contains(a0) {
                let sa = s.intersect(ca);
                assert(sa.subset_of(ca));
                assert(sa.contains(a0));
                assert(ca.contains(i));
                let (a, b) = choose|a: usize, b: usize| sa.contains(a) && ca.contains(b) && !sa.contains(b) && #[trigger] linked(e, t, a, b);
                assert(linked(e, t, a, b));
            } else {
                let sb = s.intersect(cb);
                assert(sb.subset_of(cb));
                assert(sb.contains(a0));
                assert(cb.contains(j));
                let (a, b) = choose|a: usize, b: usize| sb.contains(a) && cb.contains(b) && !sb.contains(b) && #[trigger] linked(e, t, a, b);
                assert(linked(e, t, a, b));
            }
        }
    }
}

/// Labels after merging class `from_label` into class `to_label`.
pub open spec fn relabeled(lab: Seq<usize>, from_label: usize, to_label: usize) -> Seq<usize> {
    Seq::new(lab.len(), |x: int| if lab[x] == from_label { to_label } else { lab[x] })
}

fn relabel(lab: &mut Vec<usize>, from_label: usize, to_label: usize)
    ensures
        final(lab)@ == relabeled(old(lab)@, from_label, to_label),
{
    let ghost orig = lab@;
    let mut x: usize = 0;
    while x < lab.len()
        invariant
            lab@.len() == orig.len(),
            x <= lab@.len(),
            forall|y: int| 0 <= y < x ==> lab@[y] == (if orig[y] == from_label { to_label } else { orig[y] }),
            forall|y: int| x <= y < lab@.len() ==> lab@[y] == orig[y],
        decreases lab@.len() - x,
    {
        if lab[x] == from_label {
            lab.set(x, to_label);
        }
        x = x + 1;
    }
    assert(lab@ =~= relabeled(orig, from_label, to_label));
}

/// Labelling facts: each label names an entry of its own class, and every class
/// is connected.
spec fn labels_ok(e: Seq<(String, u64)>, t: u32, lab: Seq<usize>) -> bool {
    &&& lab.len() == e.len()
    &&& forall|x: int| 0 <= x < lab.len() ==> #[trigger] lab[x] < lab.len() && lab[lab[x] as int] == lab[x]
    &&& forall|l: usize| connected_set(e, t, #[trigger] class_of(lab, l))
}

proof fn lemma_merge_ok(e: Seq<(String, u64)>, t: u32, lab: Seq<usize>, i: usize, j: usize)
    requires
        labels_ok(e, t, lab),
        linked(e, t, i, j),
        lab[i as int] != lab[j as int],
    ensures
        labels_ok(e, t, relabeled(lab, lab[j as int], lab[i as int])),
        forall|x: int, y: int|
            0 <= x < lab.len() && 0 <= y < lab.len() && lab[x] == lab[y] ==> relabeled(lab, lab[j as int], lab[i as int])[x]
                == relabeled(lab, lab[j as int], lab[i as int])[y],
        relabeled(lab, lab[j as int], lab[i as int])[i as int] == relabeled(lab, lab[j as int], lab[i as int])[j as int],
{
    let la = lab[i as int];
    let lb = lab[j as int];
    let lab2 = relabeled(lab, lb, la);
    assert forall|x: int| 0 <= x < lab2.len() implies #[trigger] lab2[x] < lab2.len() && lab2[lab2[x] as int] == lab2[x] by {
        assert(lab[x] < lab.len());
        assert(lab[la as int] == la);
    }
    assert forall|l: usize| connected_set(e, t, #[trigger] class_of(lab2, l)) by {
        if l == la {
            assert(class_of(lab2, l) =~= class_of(lab, la).union(class_of(lab, lb)));
            assert(class_of(lab, la).contains(i));
            assert(class_of(lab, lb).contains(j));
            assert(connected_set(e, t, class_of(lab, la)));
            assert(connected_set(e, t, class_of(lab, lb)));
            lemma_union_connected(e, t, class_of(lab, la), class_of(lab, lb), i, j);
        } else if l == lb {
            assert(class_of(lab2, l) =~= Set::empty());
        } else {
            assert(class_of(lab2, l) =~= class_of(lab, l));
            assert(connected_set(e, t, class_of(lab, l)));
        }
    }
}

/// Component labels of the near-duplicate relation: equal labels exactly for
/// entries joined by a chain of near duplicates.
fn component_labels(e: &[(String, u64)], t: u32) -> (lab: Vec<usize>)
    ensures
        labels_ok(e@, t, lab@),
        forall|i: usize, j: usize| #[trigger] linked(e@, t, i, j) ==> lab@[i as int] == lab@[j as int],
{
    let n = e.len();
    let mut lab: Vec<usize> = Vec::new();
    let mut x: usize = 0;
    while x < n
        invariant
            n == e@.len(),
            x <= n,
            lab@.len() == x,
            forall|y: int| 0 <= y < x ==> lab@[y] == y,
        decreases n - x,
    {
        lab.push(x);
        x = x + 1;
    }
    proof {
        assert forall|l: usize| connected_set(e@, t, #[trigger] class_of(lab@, l)) by {
            let c = class_of(lab@, l);
            assert forall|s: Set<usize>, a0: usize, b0: usize|
                #![trigger s.subset_of(c), s.contains(a0), c.contains(b0)]
                s.subset_of(c) && s.contains(a0) && c.contains(b0) && !s.contains(b0) implies exists|a: usize, b: usize|
                    s.contains(a) && c.contains(b) && !s.contains(b) && #[trigger] linked(e@, t, a, b) by {
                assert(c.contains(a0));
            }
        }
    }
    let mut i: usize = 0;
    while i < n
        invariant
            n == e@.len(),
            i <= n,
            labels_ok(e@, t, lab@),
            forall|p: usize, q: usize| p < i && p < q && #[trigger] linked(e@, t, p, q) ==> lab@[p as int] == lab@[q as int],
        decreases n - i,
    {
        let mut j: usize = i + 1;
        while j < n
            invariant
                n == e@.len(),
                i < n,
                i + 1 <= j <= n,
                labels_ok(e@, t, lab@),
                forall|p: usize, q: usize|
                    (p < i || (p == i && q < j)) && p < q && #[trigger] linked(e@, t, p, q) ==> lab@[p as int] == lab@[q as int],
            decreases n - j,
        {
            if near_duplicate(e[i].1, e[j].1, t) {
                let la = lab[i];
                let lb = lab[j];
                if la != lb {
                    proof {
                        assert(linked(e@, t, i, j));
                        lemma_merge_ok(e@, t, lab@, i, j);
                    }
                    relabel(&mut lab, lb, la);
                }
            }
            j = j + 1;
        }
        i = i + 1;
    }
    proof {
        assert forall|p: usize, q: usize| #[trigger] linked(e@, t, p, q) implies lab@[p as int] == lab@[q as int] by {
            if q < p {
                lemma_linked_symmetric(e@, t, p, q);
                assert(linked(e@, t, q, p));
            }
        }
    }
    lab
}

/// `s` is strictly increasing in the group order.
pub open spec fn key_sorted(e: Seq<(String, u64)>, s: Seq<usize>) -> bool {
    forall|a: int, b: int| 0 <= a < b < s.len() ==> key_lt(e, #[trigger] s[a], #[trigger] s[b])
}

fn key_less(e: &[(String, u64)], a: usize, b: usize) -> (r: bool)
    requires
        a < e@.len(),
        b < e@.len(),
    ensures
        r == key_lt(e@, a, b),
{
    let pa = e[a].0.as_str();
    let pb = e[b].0.as_str();
    if str_lt(pa, pb) {
        true
    } else {
        e[a].0 == e[b].0 && a < b
    }
}

proof fn lemma_insert_contains(s: Seq<usize>, p: int, x: usize)
    requires
        0 <= p <= s.len(),
    ensures
        forall|y: usize| s.insert(p, x).contains(y) <==> (s.contains(y) || y == x),
{
    let t = s.insert(p, x);
    assert forall|y: usize| t.contains(y) <==> (s.contains(y) || y == x) by {
        if t.contains(y) {
            let q = choose|q: int| 0 <= q < t.len() && t[q] == y;
            if q < p {
                assert(s[q] == y);
            } else if q > p {
                assert(s[q - 1] == y);
            }
        }
        if s.contains(y) {
            let q = choose|q: int| 0 <= q < s.len() && s[q] == y;
            if q < p {
                assert(t[q] == y);
            } else {
                assert(t[q + 1] == y);
            }
        }
        if y == x {
            assert(t[p] == x);
        }
    }
}

proof fn lemma_push_contains(s: Seq<usize>, x: usize)
    ensures
        forall|y: usize| s.push(x).contains(y) <==> (s.contains(y) || y == x),
{
    lemma_insert_contains(s, s.len() as int, x);
    assert(s.push(x) =~= s.insert(s.len() as int, x));
}

/// Sorts distinct entry positions into the group order (insertion sort).
pub(crate) fn sort_by_key(e: &[(String, u64)], items: &Vec<usize>) -> (res: Vec<usize>)
    requires
        forall|k: int| 0 <= k < items@.len() ==> #[trigger] items@[k] < e@.len(),
        forall|a: int, b: int| 0 <= a < b < items@.len() ==> items@[a] != items@[b],
    ensures
        res@.len() == items@.len(),
        forall|y: usize| res@.contains(y) <==> items@.contains(y),
        key_sorted(e@, res@),
        forall|k: int| 0 <= k < res@.len() ==> #[trigger] res@[k] < e@.len(),
{
    proof {
        lemma_key_order(e@);
    }
    let mut res: Vec<usize> = Vec::new();
    let mut i: usize = 0;
    while i < items.len()
        invariant
            i <= items@.len(),
            res@.len() == i,
            forall|k: int| 0 <= k < items@.len() ==> #[trigger] items@[k] < e@.len(),
            forall|a: int, b: int| 0 <= a < b < items@.len() ==> items@[a] != items@[b],
            forall|y: usize| res@.contains(y) <==> items@.subrange(0, i as int).contains(y),
            key_sorted(e@, res@),
            forall|k: int| 0 <= k < res@.len() ==> #[trigger] res@[k] < e@.len(),
            forall|a: usize| !#[trigger] key_lt(e@, a, a),
            forall|a: usize, b: usize| a != b ==> #[trigger] key_lt(e@, a, b) || #[trigger] key_lt(e@, b, a),
            forall|a: usize, b: usize| #[trigger] key_lt(e@, a, b) ==> !#[trigger] key_lt(e@, b, a),
            forall|a: usize, b: usize, c: usize|
                #[trigger] key_lt(e@, a, b) && #[trigger] key_lt(e@, b, c) ==> key_lt(e@, a, c),
        decreases items@.len() - i,
    {
        let x = items[i];
        proof {
            assert(!res@.contains(x)) by {
                if res@.contains(x) {
                    let k = choose|k: int| 0 <= k < i && items@.subrange(0, i as int)[k] == x;
                    assert(items@[k] == items@[i as int]);
                }
            }
        }
        let mut p: usize = 0;
        while p < res.len() && key_less(e, res[p], x)
            invariant
                p <= res@.len(),
                x < e@.len(),
                forall|k: int| 0 <= k < res@.len() ==> #[trigger] res@[k] < e@.len(),
                forall|q: int| 0 <= q < p ==> key_lt(e@, #[trigger] res@[q], x),
            decreases res@.len() - p,
        {
            p = p + 1;
        }
        let ghost old_res = res@;
        proof {
            if p < old_res.len() {
                assert(old_res[p as int] != x) by {
                    assert(old_res.contains(old_res[p as int]));
                }
                assert(key_lt(e@, x, old_res[p as int]));
            }
            lemma_insert_contains(old_res, p as int, x);
        }
        res.insert(p, x);
        proof {
            assert forall|a: int, b: int| 0 <= a < b < res@.len() implies key_lt(e@, #[trigger] res@[a], #[trigger] res@[b]) by {
                if b < p {
                    assert(res@[a] == old_res[a] && res@[b] == old_res[b]);
                } else if b == p {
                    assert(res@[a] == old_res[a]);
                } else if a == p {
                    assert(res@[b] == old_res[b - 1]);
                    if b - 1 > p {
                        assert(key_lt(e@, old_res[p as int], old_res[b - 1]));
                    }
                } else if a < p {
                    assert(res@[a] == old_res[a] && res@[b] == old_res[b - 1]);
                } else {
                    assert(res@[a] == old_res[a - 1] && res@[b] == old_res[b - 1]);
                }
            }
            lemma_push_contains(items@.subrange(0, i as int), x);
            assert(items@.subrange(0, i + 1) =~= items@.subrange(0, i as int).push(x));
            assert(res@ == old_res.insert(p as int, x));
            assert forall|y: usize| res@.contains(y) <==> items@.subrange(0, i + 1).contains(y) by {
                assert(old_res.insert(p as int, x).contains(y) <==> (old_res.contains(y) || y == x));
                assert(old_res.contains(y) <==> items@.subrange(0, i as int).contains(y));
                assert(items@.subrange(0, i as int).push(x).contains(y) <==> (items@.subrange(0, i as int).contains(y) || y == x));
            }
            assert forall|k: int| 0 <= k < res@.len() implies #[trigger] res@[k] < e@.len() by {
                if k < p {
                    assert(res@[k] == old_res[k]);
                } else if k > p {
                    assert(res@[k] == old_res[k - 1]);
                }
            }
        }
        i = i + 1;
    }
    proof {
        assert(items@.subrange(0, items@.len() as int) =~= items@);
    }
    res
}

/// The entries of class `r`, in group order.
fn class_members_sorted(e: &[(String, u64)], lab: &Vec<usize>, r: usize) -> (ms: Vec<usize>)
    requires
        lab@.len() == e@.len(),
    ensures
        forall|x: usize| ms@.contains(x) <==> class_of(lab@, r).contains(x),
        key_sorted(e@, ms@),
        forall|k: int| 0 <= k < ms@.len() ==> #[trigger] ms@[k] < e@.len(),
{
    let n = lab.len();
    let mut raw: Vec<usize> = Vec::new();
    let mut x: usize = 0;
    while x < n
        invariant
            n == lab@.len(),
            n == e@.len(),
            x <= n,
            forall|k: int| 0 <= k < raw@.len() ==> #[trigger] raw@[k] < x,
            forall|a: int, b: int| 0 <= a < b < raw@.len() ==> raw@[a] < raw@[b],
            forall|y: usize| raw@.contains(y) <==> (y < x && lab@[y as int] == r),
        decreases n - x,
    {
        if lab[x] == r {
            proof {
                lemma_push_contains(raw@, x);
            }
            raw.push(x);
        }
        x = x + 1;
    }
    sort_by_key(e, &raw)
}

/// Two distinct entries belong to class `l`.
pub open spec fn big_class(lab: Seq<usize>, l: usize) -> bool {
    exists|a: usize, b: usize| a != b && #[trigger] class_of(lab, l).contains(a) && #[trigger] class_of(lab, l).contains(b)
}

/// `f` precedes every other entry of its class in group order.
spec fn class_min(e: Seq<(String, u64)>, lab: Seq<usize>, f: usize) -> bool {
    forall|y: usize| #[trigger] class_of(lab, lab[f as int]).contains(y) && y != f ==> key_lt(e, f, y)
}

/// The grouping that `find_duplicates` returns, by entry position.
///
/// Groups hold only entries with a non-zero hash, have at least two members and
/// never share an entry. Any two near duplicates stand in one group, and each
/// group is connected by near duplicates (no split of it lacks a near-duplicate
/// pair across). Members are ordered by path (ties by position); groups are
/// ordered by the path of their first member.
pub open spec fn is_dup_grouping(e: Seq<(String, u64)>, t: u32, g: Seq<Seq<usize>>) -> bool {
    &&& forall|k: int, a: int|
        0 <= k < g.len() && 0 <= a < g[k].len() ==> #[trigger] g[k][a] < e.len() && e[g[k][a] as int].1 != 0
    &&& forall|k: int| 0 <= k < g.len() ==> #[trigger] g[k].len() >= 2
    &&& forall|k1: int, a: int, k2: int, b: int|
        0 <= k1 < g.len() && 0 <= k2 < g.len() && 0 <= a < g[k1].len() && 0 <= b < g[k2].len() && (k1
            != k2 || a != b) ==> #[trigger] g[k1][a] != #[trigger] g[k2][b]
    &&& forall|i: usize, j: usize|
        #[trigger] linked(e, t, i, j) ==> exists|k: int|
            0 <= k < g.len() && #[trigger] g[k].contains(i) && g[k].contains(j)
    &&& forall|k: int| 0 <= k < g.len() ==> connected_set(e, t, #[trigger] g[k].to_set())
    &&& forall|k: int| 0 <= k < g.len() ==> key_sorted(e, #[trigger] g[k])
    &&& forall|k1: int, k2: int|
        0 <= k1 < k2 < g.len() ==> !lex_lt(e[g[k2][0] as int].0@, e[g[k1][0] as int].0@)
}

proof fn lemma_sorted_first_is_min(e: Seq<(String, u64)>, s: Seq<usize>, y: usize)
    requires
        key_sorted(e, s),
        s.len() > 0,
        s.contains(y),
        y != s[0],
    ensures
        key_lt(e, s[0], y),
{
    let q = choose|q: int| 0 <= q < s.len() && s[q] == y;
    assert(q != 0);
}

/// `grp` lists the class of `f` in group order, starting with `f`.
spec fn group_matches(e: Seq<(String, u64)>, lab: Seq<usize>, f: usize, grp: Seq<usize>) -> bool {
    &&& forall|x: usize| #[trigger] grp.contains(x) <==> class_of(lab, lab[f as int]).contains(x)
    &&& key_sorted(e, grp)
    &&& grp.len() > 0
    &&& grp[0] == f
}

#[verifier::spinoff_prover]
proof fn lemma_grouping_final(
    e: Seq<(String, u64)>,
    t: u32,
    lab: Seq<usize>,
    firsts: Seq<usize>,
    order: Seq<usize>,
    g: Seq<Seq<usize>>,
)
    requires
        labels_ok(e, t, lab),
        forall|i: usize, j: usize| #[trigger] linked(e, t, i, j) ==> lab[i as int] == lab[j as int],
        forall|q: int| 0 <= q < firsts.len() ==> #[trigger] firsts[q] < e.len()
            && big_class(lab, lab[firsts[q] as int]) && class_min(e, lab, firsts[q]),
        forall|q1: int, q2: int|
            0 <= q1 < q2 < firsts.len() ==> lab[#[trigger] firsts[q1] as int] < lab[#[trigger] firsts[q2] as int],
        forall|l: usize|
            l < e.len() && lab[l as int] == l && #[trigger] big_class(lab, l) ==> exists|q: int|
                0 <= q < firsts.len() && lab[#[trigger] firsts[q] as int] == l,
        forall|y: usize| order.contains(y) <==> firsts.contains(y),
        key_sorted(e, order),
        forall|q: int| 0 <= q < order.len() ==> #[trigger] order[q] < e.len(),
        g.len() == order.len(),
        forall|q: int| 0 <= q < g.len() ==> #[trigger] group_matches(e, lab, order[q], g[q]),
    ensures
        is_dup_grouping(e, t, g),
{
    lemma_key_order(e);
    // Each group is the class of its first member, a big class.
    assert forall|k: int| 0 <= k < g.len() implies big_class(lab, lab[#[trigger] order[k] as int]) by {
        assert(order.contains(order[k]));
        let q = choose|q: int| 0 <= q < firsts.len() && firsts[q] == order[k];
        assert(big_class(lab, lab[firsts[q] as int]));
    }
    assert forall|k: int, a: int|
        0 <= k < g.len() && 0 <= a < g[k].len() implies #[trigger] g[k][a] < e.len() && e[g[k][a] as int].1 != 0 by {
        assert(group_matches(e, lab, order[k], g[k]));
        let l = lab[order[k] as int];
        let x = g[k][a];
        assert(g[k].contains(x));
        assert(class_of(lab, l).contains(x));
        assert(big_class(lab, lab[order[k] as int]));
        let (p, r) = choose|p: usize, r: usize| p != r && #[trigger] class_of(lab, l).contains(p) && #[trigger] class_of(lab, l).contains(r);
        let y = if p != x { p } else { r };
        let c = class_of(lab, l);
        assert(connected_set(e, t, c));
        let sx = Set::<usize>::empty().insert(x);
        assert(sx.subset_of(c));
        assert(sx.contains(x));
        assert(c.contains(y));
        let (aa, bb) = choose|aa: usize, bb: usize| sx.contains(aa) && c.contains(bb) && !sx.contains(bb) && #[trigger] linked(e, t, aa, bb);
        assert(aa == x);
    }
    assert forall|k: int| 0 <= k < g.len() implies #[trigger] g[k].len() >= 2 by {
        assert(group_matches(e, lab, order[k], g[k]));
        let l = lab[order[k] as int];
        assert(big_class(lab, l));
        let (p, r) = choose|p: usize, r: usize| p != r && #[trigger] class_of(lab, l).contains(p) && #[trigger] class_of(lab, l).contains(r);
        assert(g[k].contains(p));
        assert(g[k].contains(r));
        let qp = choose|q: int| 0 <= q < g[k].len() && g[k][q] == p;
        let qr = choose|q: int| 0 <= q < g[k].len() && g[k][q] == r;
        assert(qp != qr);
    }
    assert forall|k1: int, a: int, k2: int, b: int|
        0 <= k1 < g.len() && 0 <= k2 < g.len() && 0 <= a < g[k1].len() && 0 <= b < g[k2].len() && (k1 != k2
            || a != b) implies #[trigger] g[k1][a] != #[trigger] g[k2][b] by {
        assert(group_matches(e, lab, order[k1], g[k1]));
        assert(group_matches(e, lab, order[k2], g[k2]));
        if k1 == k2 {
            if a < b {
                assert(key_lt(e, g[k1][a], g[k1][b]));
            } else {
                assert(key_lt(e, g[k1][b], g[k1][a]));
            }
        } else {
            let f1 = order[k1];
            let f2 = order[k2];
            assert(f1 != f2) by {
                if k1 < k2 {
                    assert(key_lt(e, order[k1], order[k2]));
                } else {
                    assert(key_lt(e, order[k2], order[k1]));
                }
            }
            assert(order.contains(f1));
            assert(order.contains(f2));
            let q1 = choose|q: int| 0 <= q < firsts.len() && firsts[q] == f1;
            let q2 = choose|q: int| 0 <= q < firsts.len() && firsts[q] == f2;
            assert(q1 != q2);
            assert(lab[f1 as int] != lab[f2 as int]) by {
                if q1 < q2 {
                    assert(lab[firsts[q1] as int] < lab[firsts[q2] as int]);
                } else {
                    assert(lab[firsts[q2] as int] < lab[firsts[q1] as int]);
                }
            }
            assert(g[k1].contains(g[k1][a]));
            assert(g[k2].contains(g[k2][b]));
            assert(class_of(lab, lab[f1 as int]).contains(g[k1][a]));
            assert(class_of(lab, lab[f2 as int]).contains(g[k2][b]));
        }
    }
    assert forall|i: usize, j: usize| #[trigger] linked(e, t, i, j) implies exists|k: int|
        0 <= k < g.len() && #[trigger] g[k].contains(i) && g[k].contains(j) by {
        let l = lab[i as int];
        assert(lab[j as int] == l);
        assert(lab[l as int] == l);
        assert(class_of(lab, l).contains(i));
        assert(class_of(lab, l).contains(j));
        assert(big_class(lab, l));
        let q = choose|q: int| 0 <= q < firsts.len() && lab[#[trigger] firsts[q] as int] == l;
        assert(firsts.contains(firsts[q]));
        assert(order.contains(firsts[q]));
        let k = choose|k: int| 0 <= k < order.len() && order[k] == firsts[q];
        assert(group_matches(e, lab, order[k], g[k]));
        assert(g[k].contains(i));
        assert(g[k].contains(j));
    }
    assert forall|k: int| 0 <= k < g.len() implies connected_set(e, t, #[trigger] g[k].to_set()) by {
        assert(group_matches(e, lab, order[k], g[k]));
        let l = lab[order[k] as int];
        assert(g[k].to_set() =~= class_of(lab, l));
        assert(connected_set(e, t, class_of(lab, l)));
    }
    assert forall|k: int| 0 <= k < g.len() implies key_sorted(e, #[trigger] g[k]) by {
        assert(group_matches(e, lab, order[k], g[k]));
    }
    assert forall|k1: int, k2: int|
        0 <= k1 < k2 < g.len() implies !lex_lt(e[g[k2][0] as int].0@, e[g[k1][0] as int].0@) by {
        assert(group_matches(e, lab, order[k1], g[k1]));
        assert(group_matches(e, lab, order[k2], g[k2]));
        assert(key_lt(e, order[k1], order[k2]));
        let p1 = e[order[k1] as int].0@;
        let p2 = e[order[k2] as int].0@;
        if lex_lt(p2, p1) {
            lemma_lex_irreflexive(p1);
            if lex_lt(p1, p2) {
                lemma_lex_transitive(p1, p2, p1);
            }
        }
    }
}

/// Near-duplicate groups as entry positions; see [`is_dup_grouping`].
pub fn duplicate_groups(e: &[(String, u64)], threshold: u32) -> (g: Vec<Vec<usize>>)
    ensures
        is_dup_grouping(e@, threshold, g.deep_view()),
{
    proof {
        lemma_key_order(e@);
    }
    let n = e.len();
    let lab = component_labels(e, threshold);
    let mut firsts: Vec<usize> = Vec::new();
    let mut r: usize = 0;
    while r < n
        invariant
            n == e@.len(),
            r <= n,
            labels_ok(e@, threshold, lab@),
            forall|q: int| 0 <= q < firsts@.len() ==> #[trigger] firsts@[q] < n && lab@[firsts@[q] as int] < r
                && big_class(lab@, lab@[firsts@[q] as int]) && class_min(e@, lab@, firsts@[q]),
            forall|q1: int, q2: int|
                0 <= q1 < q2 < firsts@.len() ==> lab@[#[trigger] firsts@[q1] as int] < lab@[#[trigger] firsts@[q2] as int],
            forall|l: usize|
                l < r && lab@[l as int] == l && #[trigger] big_class(lab@, l) ==> exists|q: int|
                    0 <= q < firsts@.len() && lab@[#[trigger] firsts@[q] as int] == l,
        decreases n - r,
    {
        proof {
            lemma_key_order(e@);
        }
        if lab[r] == r {
            let ms = class_members_sorted(e, &lab, r);
            if ms.len() >= 2 {
                let f = ms[0];
                proof {
                    assert(ms@.contains(f));
                    assert(class_of(lab@, r).contains(f));
                    assert(ms@.contains(ms@[1]));
                    assert(class_of(lab@, r).contains(ms@[1]));
                    assert(ms@[0] != ms@[1]) by {
                        if ms@[0] == ms@[1] {
                            assert(key_lt(e@, ms@[0], ms@[1]));
                            assert(!key_lt(e@, ms@[0], ms@[0]));
                        }
                    }
                    assert(big_class(lab@, r));
                    assert forall|y: usize| #[trigger] class_of(lab@, lab@[f as int]).contains(y) && y != f implies key_lt(e@, f, y) by {
                        assert(ms@.contains(y));
                        lemma_sorted_first_is_min(e@, ms@, y);
                    }
                }
                let ghost old_firsts = firsts@;
                firsts.push(f);
                proof {
                    assert forall|l: usize|
                        l < r + 1 && lab@[l as int] == l && #[trigger] big_class(lab@, l) implies exists|q: int|
                            0 <= q < firsts@.len() && lab@[#[trigger] firsts@[q] as int] == l by {
                        if l < r {
                            let q = choose|q: int| 0 <= q < old_firsts.len() && lab@[#[trigger] old_firsts[q] as int] == l;
                            assert(firsts@[q] == old_firsts[q]);
                        } else {
                            assert(firsts@[firsts@.len() - 1] == f);
                        }
                    }
                }
            } else {
                proof {
                    assert(!big_class(lab@, r)) by {
                        if big_class(lab@, r) {
                            let (a, b) = choose|a: usize, b: usize| a != b && #[trigger] class_of(lab@, r).contains(a) && #[trigger] class_of(lab@, r).contains(b);
                            assert(ms@.contains(a));
                            assert(ms@.contains(b));
                            let qa = choose|q: int| 0 <= q < ms@.len() && ms@[q] == a;
                            let qb = choose|q: int| 0 <= q < ms@.len() && ms@[q] == b;
                        }
                    }
                }
            }
        }
        r = r + 1;
    }
    proof {
        assert forall|a: int, b: int| 0 <= a < b < firsts@.len() implies firsts@[a] != firsts@[b] by {
            assert(lab@[firsts@[a] as int] < lab@[firsts@[b] as int]);
        }
    }
    let order = sort_by_key(e, &firsts);
    let mut g: Vec<Vec<usize>> = Vec::new();
    let mut k: usize = 0;
    while k < order.len()
        invariant
            n == e@.len(),
            k <= order@.len(),
            g@.len() == k,
            labels_ok(e@, threshold, lab@),
            forall|y: usize| order@.contains(y) <==> firsts@.contains(y),
            key_sorted(e@, order@),
            forall|q: int| 0 <= q < order@.len() ==> #[trigger] order@[q] < e@.len(),
            forall|q: int| 0 <= q < firsts@.len() ==> #[trigger] firsts@[q] < n
                && big_class(lab@, lab@[firsts@[q] as int]) && class_min(e@, lab@, firsts@[q]),
            forall|q: int| 0 <= q < k ==> #[trigger] group_matches(e@, lab@, order@[q], g@[q]@),
        decreases order@.len() - k,
    {
        let f = order[k];
        let ms = class_members_sorted(e, &lab, lab[f]);
        proof {
            lemma_key_order(e@);
            assert(order@.contains(f));
            let q = choose|q: int| 0 <= q < firsts@.len() && firsts@[q] == f;
            assert(class_min(e@, lab@, firsts@[q]));
            assert(class_of(lab@, lab@[f as int]).contains(f)) by {
                assert(lab@[lab@[f as int] as int] == lab@[f as int]);
            }
            assert(ms@.contains(f));
            assert(ms@.len() > 0);
            if ms@[0] != f {
                assert(ms@.contains(ms@[0]));
                assert(key_lt(e@, f, ms@[0]));
                lemma_sorted_first_is_min(e@, ms@, f);
                assert(key_lt(e@, ms@[0], f));
                assert(false);
            }
            assert(ms@[0] == f);
        }
        let ghost old_g = g@;
        g.push(ms);
        proof {
            assert forall|q: int| 0 <= q < k + 1 implies #[trigger] group_matches(e@, lab@, order@[q], g@[q]@) by {
                if q < k {
                    assert(g@[q] == old_g[q]);
                } else {
                    assert(g@[q]@ == ms@);
                    assert(order@[q] == f);
                    assert forall|x: usize| #[trigger] ms@.contains(x) <==> class_of(lab@, lab@[f as int]).contains(x) by {
                    }
                }
            }
        }
        k = k + 1;
    }
    proof {
        let gv = g.deep_view();
        assert forall|q: int| 0 <= q < gv.len() implies #[trigger] group_matches(e@, lab@, order@[q], gv[q]) by {
            assert(gv[q] =~= g@[q]@);
            assert(group_matches(e@, lab@, order@[q], g@[q]@));
        }
        lemma_grouping_final(e@, threshold, lab@, firsts@, order@, gv);
    }
    g
}

/// The groups of `find_duplicates` for index groups `g`: each position replaced by its entry.
pub open spec fn groups_of(e: Seq<(String, u64)>, g: Seq<Seq<usize>>) -> Seq<Seq<(String, u64)>> {
    g.map_values(|grp: Seq<usize>| grp.map_values(|x: usize| e[x as int]))
}

/// Near-duplicate detection: groups of `(path, hash)` entries, see [`is_dup_grouping`].
///
/// All-zero hashes never take part. Within a group members are sorted by path;
/// groups are sorted by the path of their first member.
pub fn find_duplicates(entries: &[(String, u64)], threshold: u32) -> (groups: Vec<Vec<(String, u64)>>)
    ensures
        exists|g: Seq<Seq<usize>>|
            #[trigger] is_dup_grouping(entries@, threshold, g) && groups.deep_view() == groups_of(entries@, g).map_values(
                |grp: Seq<(String, u64)>| grp.map_values(|p: (String, u64)| (p.0@, p.1)),
            ),
{
    let idx = duplicate_groups(entries, threshold);
    let ghost g = idx.deep_view();
    let mut out: Vec<Vec<(String, u64)>> = Vec::new();
    let mut k: usize = 0;
    while k < idx.len()
        invariant
            k <= idx@.len(),
            g == idx.deep_view(),
            is_dup_grouping(entries@, threshold, g),
            out@.len() == k,
            forall|q: int| 0 <= q < k ==> #[trigger] out@[q]@ == g[q].map_values(|x: usize| entries@[x as int]),
        decreases idx@.len() - k,
    {
        let grp = &idx[k];
        proof {
            assert(g[k as int] =~= grp@);
        }
        let mut row: Vec<(String, u64)> = Vec::new();
        let mut a: usize = 0;
        while a < grp.len()
            invariant
                a <= grp@.len(),
                g[k as int] == grp@,
                is_dup_grouping(entries@, threshold, g),
                k < g.len(),
                row@.len() == a,
                forall|b: int| 0 <= b < a ==> #[trigger] row@[b] == entries@[grp@[b] as int],
            decreases grp@.len() - a,
        {
            let x = grp[a];
            assert(g[k as int][a as int] < entries@.len());
            let path = entries[x].0.clone();
            row.push((path, entries[x].1));
            a = a + 1;
        }
        proof {
            assert(row@ =~= g[k as int].map_values(|x: usize| entries@[x as int]));
        }
        let ghost old_out = out@;
        out.push(row);
        proof {
            assert forall|q: int| 0 <= q < k + 1 implies #[trigger] out@[q]@ == g[q].map_values(|x: usize| entries@[x as int]) by {
                if q < k {
                    assert(out@[q] == old_out[q]);
                }
            }
        }
        k = k + 1;
    }
    proof {
        let want = groups_of(entries@, g).map_values(
            |grp: Seq<(String, u64)>| grp.map_values(|p: (String, u64)| (p.0@, p.1)),
        );
        assert forall|q: int| 0 <= q < out@.len() implies #[trigger] out.deep_view()[q] == want[q] by {
            assert(out.deep_view()[q] =~= want[q]);
        }
        assert(out.deep_view() =~= want);
    }
    out
}

/// Bit `k` of a dHash (from the high end): within row `k / 8`, the pixel right of
/// column `k % 8` is brighter than the pixel at it.
pub open spec fn dhash_bit(gray: Seq<u8>, k: int) -> int {
    let y = k / 8;
    let x = k % 8;
    if gray[y * 9 + x + 1] > gray[y * 9 + x] {
        1
    } else {
        0
    }
}

/// The first `k` bits of a dHash as a number.
pub open spec fn dhash_prefix(gray: Seq<u8>, k: int) -> int
    decreases k,
{
    if k <= 0 {
        0
    } else {
        2 * dhash_prefix(gray, k - 1) + dhash_bit(gray, k - 1)
    }
}

proof fn lemma_dhash_prefix_bound(gray: Seq<u8>, k: int)
    requires
        0 <= k,
    ensures
        0 <= dhash_prefix(gray, k) < pow2(k),
    decreases k,
{
    if k > 0 {
        lemma_dhash_prefix_bound(gray, k - 1);
    }
}

/// `2^k`.
pub open spec fn pow2(k: int) -> int
    decreases k,
{
    if k <= 0 {
        1
    } else {
        2 * pow2(k - 1)
    }
}

/// dHash of a 9x8 grayscale probe given row by row (9 values per row): 64 bits,
/// one per horizontal neighbour pair, set where the right pixel is brighter.
pub fn dhash_from_gray(gray: &[u8]) -> (h: u64)
    requires
        gray@.len() == 72,
    ensures
        h == dhash_prefix(gray@, 64),
{
    let mut hash: u64 = 0;
    let mut y: usize = 0;
    while y < 8
        invariant
            gray@.len() == 72,
            y <= 8,
            hash == dhash_prefix(gray@, 8 * y as int),
        decreases 8 - y,
    {
        let mut x: usize = 0;
        while x < 8
            invariant
                gray@.len() == 72,
                y < 8,
                x <= 8,
                hash == dhash_prefix(gray@, 8 * y + x),
            decreases 8 - x,
        {
            let left = gray[y * 9 + x];
            let right = gray[y * 9 + x + 1];
            proof {
                let k = 8 * y + x;
                lemma_dhash_prefix_bound(gray@, k);
                assert(k / 8 == y && k % 8 == x) by (nonlinear_arith)
                    requires
                        k == 8 * y + x,
                        x < 8,
                ;
                assert(pow2(k) <= pow2(63)) by {
                    lemma_pow2_mono(k, 63);
                }
                lemma_pow2_63();
            }
            hash = hash * 2;
            if right > left {
                hash = hash + 1;
            }
            x = x + 1;
        }
        y = y + 1;
    }
    hash
}

proof fn lemma_pow2_mono(a: int, b: int)
    requires
        0 <= a <= b,
    ensures
        pow2(a) <= pow2(b),
    decreases b - a,
{
    if a < b {
        lemma_pow2_mono(a, b - 1);
        lemma_pow2_pos(b - 1);
    }
}

proof fn lemma_pow2_pos(a: int)
    ensures
        pow2(a) >= 1,
    decreases a,
{
    if a > 0 {
        lemma_pow2_pos(a - 1);
    }
}

proof fn lemma_pow2_63()
    ensures
        pow2(63) == 0x8000_0000_0000_0000,
{
    reveal_with_fuel(pow2, 64);
}

/// A decoded image as plain values: the pixel layout (`0` gray, `1` gray and
/// alpha, `2` RGB, `3` RGBA; 8 bits per channel), the size, and the channel
/// bytes row by row.
#[derive(Debug, Clone)]
pub struct RawImage {
    pub color: u8,
    pub width: u32,
    pub height: u32,
    pub data: Vec<u8>,
}

/// Channels per pixel of a layout.
pub open spec fn channels(color: u8) -> int {
    if color == 0 {
        1
    } else if color == 1 {
        2
    } else if color == 2 {
        3
    } else {
        4
    }
}

/// A well-formed image: a known layout, a non-empty size, and exactly one
/// byte per channel of every pixel.
pub open spec fn raw_image_ok(img: RawImage) -> bool {
    &&& img.color < 4
    &&& img.width > 0
    &&& img.height > 0
    &&& img.data@.len() == img.width * img.height * channels(img.color)
}

/// The 9x8 grayscale probe of an image, as the image crate computes it:
/// `grayscale`, then `resize_exact(9, 8, FilterType::Triangle)`, then the
/// luma bytes row by row.
pub uninterp spec fn gray_probe_of(color: u8, width: u32, height: u32, data: Seq<u8>) -> Seq<u8>;

/// Builds the `image::DynamicImage` of the layout (`ImageBuffer::from_raw`),
/// then calls `grayscale`, `resize_exact(9, 8, FilterType::Triangle)` and
/// `to_luma8().into_raw()`. The result is named [`gray_probe_of`] of the image's
/// values and has 72 bytes (9 by 8 luma pixels).
#[verifier::external_body]
fn gray_probe(img: &RawImage) -> (g: Vec<u8>)
    requires
        raw_image_ok(*img),
    ensures
        g@ == gray_probe_of(img.color, img.width, img.height, img.data@),
        g@.len() == 72,
{
    let (w, h, d) = (img.width, img.height, img.data.clone());
    let full = match img.color {
        0 => image::DynamicImage::ImageLuma8(image::ImageBuffer::from_raw(w, h, d).unwrap()),
        1 => image::DynamicImage::ImageLumaA8(image::ImageBuffer::from_raw(w, h, d).unwrap()),
        2 => image::DynamicImage::ImageRgb8(image::ImageBuffer::from_raw(w, h, d).unwrap()),
        _ => image::DynamicImage::ImageRgba8(image::ImageBuffer::from_raw(w, h, d).unwrap()),
    };
    full.grayscale().resize_exact(9, 8, image::imageops::FilterType::Triangle).to_luma8().into_raw()
}

/// 64-bit dHash of an image: the image is reduced to its 9x8 grayscale probe
/// and each horizontal neighbour pair gives one bit (see [`dhash_from_gray`]).
pub fn dhash64(img: &RawImage) -> (h: u64)
    requires
        raw_image_ok(*img),
    ensures
        h == dhash_prefix(gray_probe_of(img.color, img.width, img.height, img.data@), 64),
{
    let gray = gray_probe(img);
    dhash_from_gray(gray.as_slice())
}

} // verus!
