use crate::names::{
    lemma_name_lt_irreflexive, lemma_name_lt_total, lemma_name_lt_transitive, name_less, name_lt,
    clone_names, names_view, same_text,
};
use vstd::prelude::*;
use vstd::seq_lib::{
    group_to_multiset_ensures, to_multiset_build, to_multiset_insert, to_multiset_len,
};

verus! {

/// Each name comes strictly before the next: sorted, without repeats.
pub open spec fn names_strictly_sorted(s: Seq<Seq<char>>) -> bool {
    forall|i: int, j: int| 0 <= i < j < s.len() ==> name_lt(#[trigger] s[i], #[trigger] s[j])
}

/// The names of a finite set, sorted in the order of `str`'s `Ord`.
pub open spec fn sorted_name_set(s: Set<Seq<char>>) -> Seq<Seq<char>> {
    choose|r: Seq<Seq<char>>| names_strictly_sorted(r) && r.to_set() == s
}

/// Two strictly sorted sequences with the same names are equal.
pub proof fn lemma_sorted_names_unique(a: Seq<Seq<char>>, b: Seq<Seq<char>>)
    requires
        names_strictly_sorted(a),
        names_strictly_sorted(b),
        a.to_set() == b.to_set(),
    ensures
        a == b,
    decreases a.len(),
{
    if a.len() == 0 || b.len() == 0 {
        if a.len() > 0 {
            assert(a.to_set().contains(a[0]));
        }
        if b.len() > 0 {
            assert(b.to_set().contains(b[0]));
        }
        assert(a =~= b);
    } else {
        assert(b.to_set().contains(a[0]));
        let k = choose|k: int| 0 <= k < b.len() && b[k] == a[0];
        assert(a.to_set().contains(b[0]));
        let m = choose|m: int| 0 <= m < a.len() && a[m] == b[0];
        if a[0] != b[0] {
            assert(k > 0 && m > 0);
            assert(name_lt(b[0], b[k]));
            assert(name_lt(a[0], a[m]));
            lemma_name_lt_transitive(a[0], b[0], a[0]);
            lemma_name_lt_irreflexive(a[0]);
        }
        let a1 = a.drop_first();
        let b1 = b.drop_first();
        assert forall|x: Seq<char>| a1.to_set().contains(x) implies b1.to_set().contains(x) by {
            let i = choose|i: int| 0 <= i < a1.len() && a1[i] == x;
            assert(name_lt(a[0], a[i + 1]));
            lemma_name_lt_irreflexive(x);
            assert(a.to_set().contains(x));
            let j = choose|j: int| 0 <= j < b.len() && b[j] == x;
            assert(j != 0);
            assert(b1[j - 1] == x);
        }
        assert forall|x: Seq<char>| b1.to_set().contains(x) implies a1.to_set().contains(x) by {
            let i = choose|i: int| 0 <= i < b1.len() && b1[i] == x;
            assert(name_lt(b[0], b[i + 1]));
            lemma_name_lt_irreflexive(x);
            assert(b.to_set().contains(x));
            let j = choose|j: int| 0 <= j < a.len() && a[j] == x;
            assert(j != 0);
            assert(a1[j - 1] == x);
        }
        assert(a1.to_set() =~= b1.to_set());
        lemma_sorted_names_unique(a1, b1);
        assert(a =~= seq![a[0]] + a1);
        assert(b =~= seq![b[0]] + b1);
    }
}

/// A strictly sorted sequence is the sorted form of its set of names.
pub proof fn lemma_sorted_name_set(r: Seq<Seq<char>>)
    requires
        names_strictly_sorted(r),
    ensures
        sorted_name_set(r.to_set()) == r,
{
    let c = sorted_name_set(r.to_set());
    assert(names_strictly_sorted(c) && c.to_set() == r.to_set());
    lemma_sorted_names_unique(c, r);
}

/// Adds `x` to a strictly sorted list of names, where it is not yet.
pub(crate) fn insert_name(v: &mut Vec<String>, x: String)
    requires
        names_strictly_sorted(names_view(old(v)@)),
    ensures
        names_strictly_sorted(names_view(final(v)@)),
        names_view(final(v)@).to_set() == names_view(old(v)@).to_set().insert(x@),
{
    let ghost old_names = names_view(v@);
    let mut i: usize = 0;
    while i < v.len() && name_less(v[i].as_str(), x.as_str())
        invariant
            i <= v@.len(),
            v@ == old(v)@,
            old_names == names_view(v@),
            names_strictly_sorted(old_names),
            forall|j: int| 0 <= j < i ==> name_lt(#[trigger] old_names[j], x@),
        decreases v.len() - i,
    {
        i += 1;
    }
    if i < v.len() && same_text(&v[i], &x) {
        assert(old_names[i as int] == x@);
        assert(old_names.to_set() =~= old_names.to_set().insert(x@));
        return;
    }
    proof {
        if i < v.len() {
            assert(!name_lt(old_names[i as int], x@));
            lemma_name_lt_total(old_names[i as int], x@);
            assert(name_lt(x@, old_names[i as int]));
            assert forall|j: int| i < j < old_names.len() implies name_lt(x@, #[trigger] old_names[j]) by {
                lemma_name_lt_transitive(x@, old_names[i as int], old_names[j]);
            }
        }
    }
    v.insert(i, x);
    proof {
        let n = names_view(v@);
        assert(n =~= old_names.insert(i as int, x@));
        assert forall|a: int, b: int| 0 <= a < b < n.len() implies name_lt(#[trigger] n[a], #[trigger] n[b]) by {
            if b < i {
            } else if b == i {
            } else if a < i {
                assert(name_lt(old_names[a], x@));
                if i < old_names.len() {
                    assert(name_lt(x@, old_names[i as int]));
                    assert(name_lt(x@, old_names[b - 1]));
                    lemma_name_lt_transitive(old_names[a], x@, old_names[b - 1]);
                }
            } else if a == i {
            } else {
                assert(name_lt(old_names[a - 1], old_names[b - 1]));
            }
        }
        assert forall|y: Seq<char>| n.to_set().contains(y) <==> old_names.to_set().insert(x@).contains(y) by {
            if n.contains(y) {
                let k = choose|k: int| 0 <= k < n.len() && n[k] == y;
                if k < i {
                    assert(old_names[k] == y);
                } else if k > i {
                    assert(old_names[k - 1] == y);
                }
            }
            if old_names.contains(y) {
                let k = choose|k: int| 0 <= k < old_names.len() && old_names[k] == y;
                if k < i {
                    assert(n[k] == y);
                } else {
                    assert(n[k + 1] == y);
                }
            }
            if y == x@ {
                assert(n[i as int] == y);
            }
        }
        assert(n.to_set() =~= old_names.to_set().insert(x@));
    }
}

/// Lexicographic order on paths of names, the order of `Vec<String>`'s
/// `Ord`: a proper prefix comes first.
pub open spec fn path_lt(a: Seq<Seq<char>>, b: Seq<Seq<char>>) -> bool
    decreases a.len(),
{
    if a.len() == 0 {
        b.len() > 0
    } else if b.len() == 0 {
        false
    } else if a[0] != b[0] {
        name_lt(a[0], b[0])
    } else {
        path_lt(a.drop_first(), b.drop_first())
    }
}

pub open spec fn path_le(a: Seq<Seq<char>>, b: Seq<Seq<char>>) -> bool {
    a == b || path_lt(a, b)
}

pub proof fn lemma_path_lt_irreflexive(a: Seq<Seq<char>>)
    ensures
        !path_lt(a, a),
    decreases a.len(),
{
    if a.len() > 0 {
        lemma_path_lt_irreflexive(a.drop_first());
    }
}

pub proof fn lemma_path_lt_transitive(a: Seq<Seq<char>>, b: Seq<Seq<char>>, c: Seq<Seq<char>>)
    requires
        path_lt(a, b),
        path_lt(b, c),
    ensures
        path_lt(a, c),
    decreases a.len(),
{
    if a.len() > 0 && b.len() > 0 && c.len() > 0 {
        if a[0] == b[0] && b[0] == c[0] {
            lemma_path_lt_transitive(a.drop_first(), b.drop_first(), c.drop_first());
        } else if a[0] != b[0] && b[0] != c[0] {
            lemma_name_lt_transitive(a[0], b[0], c[0]);
            if a[0] == c[0] {
                lemma_name_lt_irreflexive(a[0]);
            }
        }
    }
}

pub proof fn lemma_path_lt_total(a: Seq<Seq<char>>, b: Seq<Seq<char>>)
    requires
        a != b,
    ensures
        path_lt(a, b) || path_lt(b, a),
    decreases a.len(),
{
    if a.len() == 0 && b.len() == 0 {
        assert(a =~= b);
    } else if a.len() > 0 && b.len() > 0 && a[0] == b[0] {
        if a.drop_first() == b.drop_first() {
            assert(a =~= seq![a[0]] + a.drop_first());
            assert(b =~= seq![b[0]] + b.drop_first());
        } else {
            lemma_path_lt_total(a.drop_first(), b.drop_first());
        }
    } else if a.len() > 0 && b.len() > 0 {
        lemma_name_lt_total(a[0], b[0]);
    }
}

pub proof fn lemma_path_le_transitive(a: Seq<Seq<char>>, b: Seq<Seq<char>>, c: Seq<Seq<char>>)
    requires
        path_le(a, b),
        path_le(b, c),
    ensures
        path_le(a, c),
{
    if a != b && b != c {
        lemma_path_lt_transitive(a, b, c);
    }
}

/// Each path comes no later than the next.
pub open spec fn paths_sorted(s: Seq<Seq<Seq<char>>>) -> bool {
    forall|i: int, j: int| 0 <= i < j < s.len() ==> path_le(#[trigger] s[i], #[trigger] s[j])
}

/// The paths of `s`, repeats kept, sorted in the order of `Vec<String>`'s `Ord`.
pub open spec fn sorted_paths(s: Seq<Seq<Seq<char>>>) -> Seq<Seq<Seq<char>>> {
    choose|r: Seq<Seq<Seq<char>>>| paths_sorted(r) && r.to_multiset() == s.to_multiset()
}

/// Two sorted sequences that hold the same paths equally often are equal.
pub proof fn lemma_sorted_paths_unique(a: Seq<Seq<Seq<char>>>, b: Seq<Seq<Seq<char>>>)
    requires
        paths_sorted(a),
        paths_sorted(b),
        a.to_multiset() == b.to_multiset(),
    ensures
        a == b,
    decreases a.len(),
{
    broadcast use group_to_multiset_ensures;

    to_multiset_len(a);
    to_multiset_len(b);
    assert(a.len() == b.len());
    if a.len() == 0 {
        assert(a =~= b);
    } else {
        assert(a.contains(a[0]));
        assert(b.contains(b[0]));
        assert(a.to_multiset().count(a[0]) > 0);
        assert(b.to_multiset().count(b[0]) > 0);
        assert(b.contains(a[0]));
        let k = choose|k: int| 0 <= k < b.len() && b[k] == a[0];
        assert(a.contains(b[0]));
        let m = choose|m: int| 0 <= m < a.len() && a[m] == b[0];
        if a[0] != b[0] {
            assert(k > 0 && m > 0);
            assert(path_le(b[0], b[k]));
            assert(path_le(a[0], a[m]));
            lemma_path_lt_transitive(a[0], b[0], a[0]);
            lemma_path_lt_irreflexive(a[0]);
        }
        let a1 = a.remove(0);
        let b1 = b.remove(0);
        assert(a1.to_multiset() == a.to_multiset().remove(a[0]));
        assert(b1.to_multiset() == b.to_multiset().remove(b[0]));
        assert forall|i: int, j: int| 0 <= i < j < a1.len() implies path_le(#[trigger] a1[i], #[trigger] a1[j]) by {
            assert(path_le(a[i + 1], a[j + 1]));
        }
        assert forall|i: int, j: int| 0 <= i < j < b1.len() implies path_le(#[trigger] b1[i], #[trigger] b1[j]) by {
            assert(path_le(b[i + 1], b[j + 1]));
        }
        lemma_sorted_paths_unique(a1, b1);
        assert(a =~= seq![a[0]] + a1);
        assert(b =~= seq![b[0]] + b1);
    }
}

/// A sorted sequence of paths is the sorted form of itself, and of anything
/// that holds the same paths equally often.
pub proof fn lemma_sorted_paths(r: Seq<Seq<Seq<char>>>, s: Seq<Seq<Seq<char>>>)
    requires
        paths_sorted(r),
        r.to_multiset() == s.to_multiset(),
    ensures
        sorted_paths(s) == r,
{
    let c = sorted_paths(s);
    assert(paths_sorted(c) && c.to_multiset() == s.to_multiset());
    lemma_sorted_paths_unique(c, r);
}

pub open spec fn paths_view(v: Seq<Vec<String>>) -> Seq<Seq<Seq<char>>> {
    v.map_values(|p: Vec<String>| names_view(p@))
}

/// Whether path `a` comes strictly before path `b`.
pub fn path_less(a: &Vec<String>, b: &Vec<String>) -> (r: bool)
    ensures
        r == path_lt(names_view(a@), names_view(b@)),
{
    let ghost na = names_view(a@);
    let ghost nb = names_view(b@);
    let mut i: usize = 0;
    assert(na.skip(0) =~= na);
    assert(nb.skip(0) =~= nb);
    while i < a.len() && i < b.len()
        invariant
            i <= a@.len(),
            i <= b@.len(),
            na == names_view(a@),
            nb == names_view(b@),
            path_lt(na, nb) == path_lt(na.skip(i as int), nb.skip(i as int)),
        decreases a.len() - i,
    {
        assert(na.skip(i as int)[0] == a@[i as int]@);
        assert(nb.skip(i as int)[0] == b@[i as int]@);
        if !same_text(&a[i], &b[i]) {
            return name_less(a[i].as_str(), b[i].as_str());
        }
        assert(na.skip(i as int).drop_first() =~= na.skip(i + 1));
        assert(nb.skip(i as int).drop_first() =~= nb.skip(i + 1));
        i += 1;
    }
    i == a.len() && i < b.len()
}

/// Adds `x` to a sorted list of paths, after any equal to it.
pub(crate) fn insert_path(v: &mut Vec<Vec<String>>, x: Vec<String>)
    requires
        paths_sorted(paths_view(old(v)@)),
    ensures
        paths_sorted(paths_view(final(v)@)),
        paths_view(final(v)@).to_multiset() == paths_view(old(v)@).to_multiset().insert(names_view(x@)),
{
    let ghost old_paths = paths_view(v@);
    let ghost xp = names_view(x@);
    let mut i: usize = 0;
    while i < v.len() && !path_less(&x, &v[i])
        invariant
            i <= v@.len(),
            v@ == old(v)@,
            old_paths == paths_view(v@),
            xp == names_view(x@),
            paths_sorted(old_paths),
            forall|j: int| 0 <= j < i ==> path_le(#[trigger] old_paths[j], xp),
        decreases v.len() - i,
    {
        proof {
            if old_paths[i as int] != xp {
                lemma_path_lt_total(old_paths[i as int], xp);
            }
        }
        i += 1;
    }
    proof {
        if i < v.len() {
            assert forall|j: int| i <= j < old_paths.len() implies path_lt(xp, #[trigger] old_paths[j]) by {
                if j > i {
                    assert(path_le(old_paths[i as int], old_paths[j]));
                    if old_paths[i as int] != old_paths[j] {
                        lemma_path_lt_transitive(xp, old_paths[i as int], old_paths[j]);
                    }
                }
            }
        }
    }
    v.insert(i, x);
    proof {
        let n = paths_view(v@);
        assert(n =~= old_paths.insert(i as int, xp));
        to_multiset_insert(old_paths, i as int, xp);
        assert forall|a: int, b: int| 0 <= a < b < n.len() implies path_le(#[trigger] n[a], #[trigger] n[b]) by {
            if b < i {
            } else if b == i {
            } else if a < i {
                assert(path_le(old_paths[a], xp));
                assert(path_lt(xp, old_paths[b - 1]));
                lemma_path_le_transitive(old_paths[a], xp, old_paths[b - 1]);
            } else if a == i {
                assert(path_lt(xp, old_paths[b - 1]));
            } else {
                assert(path_le(old_paths[a - 1], old_paths[b - 1]));
            }
        }
    }
}

/// The paths of `v`, sorted.
pub fn sort_paths(v: &Vec<Vec<String>>) -> (r: Vec<Vec<String>>)
    ensures
        paths_view(r@) == sorted_paths(paths_view(v@)),
        paths_sorted(paths_view(r@)),
        paths_view(r@).to_multiset() == paths_view(v@).to_multiset(),
{
    broadcast use group_to_multiset_ensures;

    let mut r: Vec<Vec<String>> = Vec::new();
    let mut i: usize = 0;
    assert(paths_view(r@) =~= paths_view(v@.take(0)));
    while i < v.len()
        invariant
            i <= v@.len(),
            paths_sorted(paths_view(r@)),
            paths_view(r@).to_multiset() == paths_view(v@.take(i as int)).to_multiset(),
        decreases v.len() - i,
    {
        let p = clone_names(&v[i]);
        insert_path(&mut r, p);
        proof {
            let prev = paths_view(v@.take(i as int));
            assert(paths_view(v@.take(i + 1)) =~= prev.push(names_view(v@[i as int]@)));
            to_multiset_build(prev, names_view(v@[i as int]@));
        }
        i += 1;
    }
    assert(v@.take(v@.len() as int) =~= v@);
    proof {
        lemma_sorted_paths(paths_view(r@), paths_view(v@));
    }
    r
}

} // verus!
