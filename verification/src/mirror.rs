//! The training mirror of a dataset: sd-scripts wants a parent folder whose
//! sub-folders carry an `N_` repeat prefix. The images directly in the dataset
//! folder become the group `<repeats>_data`, every sub-folder with images a
//! group of its normalized name (sub-folders by name); a name already taken
//! gets `_2`, `_3`, … so that no group is dropped or mixed into another.
//! Linking the files is left to the caller.

use vstd::prelude::*;

use crate::naming::{group_name, normalize_group_name};
use crate::scan::{path_before, scan_order};
use crate::text::{decimal, push_decimal};

verus! {

/// The `k`-th name tried for a group named `base`: `base` itself, then
/// `base_2`, `base_3`, …
pub open spec fn candidate_name(base: Seq<char>, k: nat) -> Seq<char> {
    if k <= 1 {
        base
    } else {
        base + "_"@ + decimal(k)
    }
}

proof fn lemma_decimal_len(n: nat)
    ensures
        decimal(n).len() >= 1,
        decimal(n).len() == 1 <==> n < 10,
    decreases n,
{
    reveal_strlit("0");
    reveal_strlit("1");
    reveal_strlit("2");
    reveal_strlit("3");
    reveal_strlit("4");
    reveal_strlit("5");
    reveal_strlit("6");
    reveal_strlit("7");
    reveal_strlit("8");
    reveal_strlit("9");
    if n >= 10 {
        lemma_decimal_len(n / 10);
    }
}

proof fn lemma_digit_code(d: int)
    requires
        0 <= d < 10,
    ensures
        crate::text::digit_seq(d).len() == 1,
        crate::text::digit_seq(d)[0] as int == 48 + d,
{
    reveal_strlit("0");
    reveal_strlit("1");
    reveal_strlit("2");
    reveal_strlit("3");
    reveal_strlit("4");
    reveal_strlit("5");
    reveal_strlit("6");
    reveal_strlit("7");
    reveal_strlit("8");
    reveal_strlit("9");
    if d == 0 {
    } else if d == 1 {
    } else if d == 2 {
    } else if d == 3 {
    } else if d == 4 {
    } else if d == 5 {
    } else if d == 6 {
    } else if d == 7 {
    } else if d == 8 {
    } else {
    }
}

proof fn lemma_digit_injective(a: int, b: int)
    requires
        0 <= a < 10,
        0 <= b < 10,
        crate::text::digit_seq(a) == crate::text::digit_seq(b),
    ensures
        a == b,
{
    lemma_digit_code(a);
    lemma_digit_code(b);
}

proof fn lemma_decimal_injective(a: nat, b: nat)
    requires
        decimal(a) == decimal(b),
    ensures
        a == b,
    decreases a,
{
    lemma_decimal_len(a);
    lemma_decimal_len(b);
    if a < 10 && b < 10 {
        lemma_digit_injective(a as int, b as int);
    } else if a >= 10 && b >= 10 {
        let da = decimal(a / 10);
        let db = decimal(b / 10);
        let ta = crate::text::digit_seq((a % 10) as int);
        let tb = crate::text::digit_seq((b % 10) as int);
        reveal_strlit("0");
        reveal_strlit("1");
        reveal_strlit("2");
        reveal_strlit("3");
        reveal_strlit("4");
        reveal_strlit("5");
        reveal_strlit("6");
        reveal_strlit("7");
        reveal_strlit("8");
        reveal_strlit("9");
        assert(ta.len() == 1 && tb.len() == 1);
        assert(da.len() == db.len());
        assert(da =~= decimal(a).take(da.len() as int));
        assert(db =~= decimal(b).take(db.len() as int));
        assert(ta =~= decimal(a).skip(da.len() as int));
        assert(tb =~= decimal(b).skip(db.len() as int));
        lemma_decimal_injective(a / 10, b / 10);
        lemma_digit_injective((a % 10) as int, (b % 10) as int);
    }
}

/// Different tries give different names.
proof fn lemma_candidates_distinct(base: Seq<char>, a: nat, b: nat)
    requires
        1 <= a,
        1 <= b,
        a != b,
    ensures
        candidate_name(base, a) != candidate_name(base, b),
{
    reveal_strlit("_");
    if a > 1 && b > 1 {
        let ca = candidate_name(base, a);
        let cb = candidate_name(base, b);
        if ca == cb {
            assert(decimal(a) =~= ca.skip(base.len() as int + 1));
            assert(decimal(b) =~= cb.skip(base.len() as int + 1));
            lemma_decimal_injective(a, b);
        }
    } else if a > 1 {
        lemma_decimal_len(a);
    } else {
        lemma_decimal_len(b);
    }
}

/// Pigeonhole: `used` holds at least as many texts as the distinct names
/// tried so far.
proof fn lemma_tries_fit(used: Seq<Seq<char>>, base: Seq<char>, k: nat)
    requires
        forall|j: nat| 1 <= j <= k ==> used.contains(#[trigger] candidate_name(base, j)),
    ensures
        k <= used.len(),
{
    let cs = Seq::new(k, |i: int| candidate_name(base, (i + 1) as nat));
    assert(cs.no_duplicates()) by {
        assert forall|i: int, j: int| 0 <= i < cs.len() && 0 <= j < cs.len() && i != j implies cs[i] != cs[j] by {
            lemma_candidates_distinct(base, (i + 1) as nat, (j + 1) as nat);
        }
    }
    cs.unique_seq_to_set();
    assert(cs.to_set().subset_of(used.to_set())) by {
        assert forall|x: Seq<char>| cs.to_set().contains(x) implies used.to_set().contains(x) by {
            let i = choose|i: int| 0 <= i < cs.len() && cs[i] == x;
            assert(used.contains(candidate_name(base, (i + 1) as nat)));
        }
    }
    vstd::seq_lib::seq_to_set_is_finite(used);
    vstd::set_lib::lemma_len_subset(cs.to_set(), used.to_set());
    used.lemma_cardinality_of_set();
}

/// The first try, from the `k`-th on, whose name `used` does not hold.
pub open spec fn free_try(used: Seq<Seq<char>>, base: Seq<char>, k: nat) -> nat
    decreases used.len() + 1 - k,
{
    if k > used.len() || !used.contains(candidate_name(base, k)) {
        k
    } else {
        free_try(used, base, k + 1)
    }
}

/// The name a group named `base` gets when the names in `used` are taken.
pub open spec fn unique_name(used: Seq<Seq<char>>, base: Seq<char>) -> Seq<char> {
    candidate_name(base, free_try(used, base, 1))
}

proof fn lemma_free_try(used: Seq<Seq<char>>, base: Seq<char>, k: nat)
    requires
        k >= 1,
        forall|j: nat| 1 <= j < k ==> used.contains(#[trigger] candidate_name(base, j)),
    ensures
        free_try(used, base, k) >= k,
        !used.contains(candidate_name(base, free_try(used, base, k))),
        forall|j: nat| 1 <= j < free_try(used, base, k) ==> used.contains(#[trigger] candidate_name(base, j)),
    decreases used.len() + 1 - k,
{
    if k > used.len() {
        if used.contains(candidate_name(base, k)) {
            lemma_tries_fit(used, base, k);
        }
    } else if used.contains(candidate_name(base, k)) {
        lemma_free_try(used, base, k + 1);
    }
}

/// A unique name is not taken yet.
pub proof fn lemma_unique_name_is_free(used: Seq<Seq<char>>, base: Seq<char>)
    ensures
        !used.contains(unique_name(used, base)),
{
    lemma_free_try(used, base, 1);
}

/// The names given to the groups named `bases`, one after the other.
pub open spec fn unique_names(bases: Seq<Seq<char>>) -> Seq<Seq<char>>
    decreases bases.len(),
{
    if bases.len() == 0 {
        Seq::empty()
    } else {
        let prev = unique_names(bases.drop_last());
        prev.push(unique_name(prev, bases.last()))
    }
}

/// The groups of a mirror are all named differently.
pub proof fn lemma_unique_names_distinct(bases: Seq<Seq<char>>)
    ensures
        unique_names(bases).len() == bases.len(),
        unique_names(bases).no_duplicates(),
    decreases bases.len(),
{
    if bases.len() > 0 {
        let prev = unique_names(bases.drop_last());
        lemma_unique_names_distinct(bases.drop_last());
        lemma_unique_name_is_free(prev, bases.last());
        let u = unique_names(bases);
        assert forall|i: int, j: int| 0 <= i < u.len() && 0 <= j < u.len() && i != j implies u[i] != u[j] by {
            if i < prev.len() && j < prev.len() {
                assert(u[i] == prev[i] && u[j] == prev[j]);
            } else if i == prev.len() {
                assert(u[j] == prev[j]);
                assert(prev.contains(prev[j]));
            } else {
                assert(u[i] == prev[i]);
                assert(prev.contains(prev[i]));
            }
        }
    }
}

fn holds(used: &Vec<String>, name: &String) -> (r: bool)
    ensures
        r == used@.map_values(|s: String| s@).contains(name@),
{
    let ghost uv = used@.map_values(|s: String| s@);
    let mut i: usize = 0;
    while i < used.len()
        invariant
            i <= used@.len(),
            uv == used@.map_values(|s: String| s@),
            forall|q: int| 0 <= q < i ==> uv[q] != name@,
        decreases used@.len() - i,
    {
        if used[i] == *name {
            proof {
                assert(uv[i as int] == name@);
            }
            return true;
        }
        i = i + 1;
    }
    false
}

fn unique_name_of(used: &Vec<String>, base: &str) -> (r: String)
    requires
        used@.len() < usize::MAX,
    ensures
        r@ == unique_name(used@.map_values(|s: String| s@), base@),
{
    let ghost uv = used@.map_values(|s: String| s@);
    let mut k: usize = 1;
    let mut name = String::from_str(base);
    proof {
        assert(name@ == candidate_name(base@, 1));
    }
    while holds(used, &name)
        invariant
            uv == used@.map_values(|s: String| s@),
            used@.len() < usize::MAX,
            1 <= k,
            name@ == candidate_name(base@, k as nat),
            forall|j: nat| 1 <= j < k ==> uv.contains(#[trigger] candidate_name(base@, j)),
            free_try(uv, base@, 1) == free_try(uv, base@, k as nat),
        decreases used@.len() + 1 - k,
    {
        proof {
            assert forall|j: nat| 1 <= j <= k implies uv.contains(#[trigger] candidate_name(base@, j)) by {}
            lemma_tries_fit(uv, base@, k as nat);
        }
        k = k + 1;
        let mut next = String::from_str(base);
        next.append("_");
        push_decimal(&mut next, k as u64);
        name = next;
    }
    proof {
        assert(free_try(uv, base@, k as nat) == k);
    }
    name
}

/// The group names of a dataset's mirror, before they are made unique.
pub open spec fn mirror_bases(direct_images: bool, repeats: nat, nested_sorted: Seq<Seq<char>>) -> Seq<Seq<char>> {
    (if direct_images {
        seq![decimal(repeats) + "_data"@]
    } else {
        Seq::empty()
    }) + nested_sorted.map_values(|n: Seq<char>| group_name(n))
}

/// `order` lists every position of `names` once, sorted by name (a stable sort).
pub open spec fn is_name_order(names: Seq<String>, order: Seq<usize>) -> bool {
    &&& order.len() == names.len()
    &&& forall|y: usize| #[trigger] order.contains(y) <==> y < names.len()
    &&& forall|a: int, b: int|
        0 <= a < b < order.len() ==> path_before(
            names.map_values(|s: String| s@),
            #[trigger] order[a],
            #[trigger] order[b],
        )
}

/// The group names of a dataset's mirror: the folder's own images first (when
/// it has any), then its sub-folders with images in the order of `nested`
/// sorted by name.
pub fn mirror_group_names(direct_images: bool, repeats: u64, nested: &[String]) -> (names: Vec<String>)
    requires
        nested@.len() + 1 < usize::MAX,
    ensures
        exists|order: Seq<usize>|
            #[trigger] is_name_order(nested@, order) && names@.map_values(
                |s: String| s@,
            ) == unique_names(
                mirror_bases(
                    direct_images,
                    repeats as nat,
                    order.map_values(|i: usize| nested@[i as int]@),
                ),
            ),
{
    let order = scan_order(nested);
    let ghost sorted = order@.map_values(|i: usize| nested@[i as int]@);
    let ghost bases = mirror_bases(direct_images, repeats as nat, sorted);
    let mut names: Vec<String> = Vec::new();
    let ghost mut done: int = 0;
    if direct_images {
        let mut base = String::new();
        push_decimal(&mut base, repeats);
        base.append("_data");
        let name = unique_name_of(&names, base.as_str());
        names.push(name);
        proof {
            reveal_strlit("_data");
            done = 1;
            assert(bases.take(1).drop_last() =~= Seq::<Seq<char>>::empty());
            assert(bases[0] =~= base@);
            assert(bases.take(1).last() == bases[0]);
            assert(Seq::<String>::empty().map_values(|s: String| s@) =~= Seq::<Seq<char>>::empty());
            assert(unique_names(bases.take(1)) == unique_names(bases.take(1).drop_last()).push(
                unique_name(unique_names(bases.take(1).drop_last()), bases.take(1).last()),
            ));
            assert(names@.map_values(|s: String| s@) =~= unique_names(bases.take(1)));
        }
    } else {
        proof {
            assert(names@.map_values(|s: String| s@) =~= unique_names(bases.take(0)));
        }
    }
    let mut i: usize = 0;
    while i < order.len()
        invariant
            order@.len() == nested@.len(),
            nested@.len() + 1 < usize::MAX,
            forall|y: usize| #[trigger] order@.contains(y) <==> y < nested@.len(),
            sorted == order@.map_values(|i: usize| nested@[i as int]@),
            bases == mirror_bases(direct_images, repeats as nat, sorted),
            done == (if direct_images { 1int } else { 0int }),
            bases.len() == done + sorted.len(),
            i <= order@.len(),
            names@.len() == done + i,
            names@.map_values(|s: String| s@) == unique_names(bases.take(done + i)),
        decreases order@.len() - i,
    {
        let x = order[i];
        proof {
            assert(order@.contains(x));
        }
        let base = normalize_group_name(nested[x].as_str());
        let ghost prev = names@.map_values(|s: String| s@);
        let name = unique_name_of(&names, base.as_str());
        names.push(name);
        proof {
            assert(bases.take(done + i + 1).drop_last() =~= bases.take(done + i));
            assert(bases[done + i] == group_name(sorted[i as int]));
            assert(names@.map_values(|s: String| s@) =~= prev.push(unique_name(prev, base@)));
        }
        i = i + 1;
    }
    proof {
        assert(bases.take(bases.len() as int) =~= bases);
        assert(is_name_order(nested@, order@));
    }
    names
}

} // verus!
