//! The order of strings (character by character, as `str` orders them) and
//! a stable sort of named items by their names.
use vstd::prelude::*;

verus! {

/// Whether `a` comes before `b`: at the first character where they differ,
/// `a` has the smaller one, or `a` is a proper prefix of `b`.
pub open spec fn seq_lt(a: Seq<char>, b: Seq<char>) -> bool
    decreases a.len(),
{
    if a.len() == 0 {
        b.len() > 0
    } else if b.len() == 0 {
        false
    } else if a[0] != b[0] {
        a[0] < b[0]
    } else {
        seq_lt(a.drop_first(), b.drop_first())
    }
}

/// No string comes before itself.
pub proof fn lemma_lt_irreflexive(a: Seq<char>)
    ensures
        !seq_lt(a, a),
    decreases a.len(),
{
    if a.len() > 0 {
        lemma_lt_irreflexive(a.drop_first());
    }
}

/// The order is transitive.
pub proof fn lemma_lt_transitive(a: Seq<char>, b: Seq<char>, c: Seq<char>)
    requires
        seq_lt(a, b),
        seq_lt(b, c),
    ensures
        seq_lt(a, c),
    decreases a.len(),
{
    if a.len() > 0 && b.len() > 0 && c.len() > 0 && a[0] == b[0] && b[0] == c[0] {
        lemma_lt_transitive(a.drop_first(), b.drop_first(), c.drop_first());
    }
}

/// Of two different strings, one comes before the other.
pub proof fn lemma_lt_total(a: Seq<char>, b: Seq<char>)
    requires
        a != b,
    ensures
        seq_lt(a, b) || seq_lt(b, a),
    decreases a.len(),
{
    if a.len() == 0 && b.len() == 0 {
        assert(a =~= b);
    } else if a.len() > 0 && b.len() > 0 && a[0] == b[0] {
        if a.drop_first() == b.drop_first() {
            assert(a.len() == b.len()) by {
                assert(a.drop_first().len() == b.drop_first().len());
            }
            assert(a =~= b) by {
                assert forall|i: int| 0 <= i < a.len() implies a[i] == b[i] by {
                    if i > 0 {
                        assert(a[i] == a.drop_first()[i - 1]);
                        assert(b[i] == b.drop_first()[i - 1]);
                    }
                }
            }
        } else {
            lemma_lt_total(a.drop_first(), b.drop_first());
        }
    }
}

/// Whether the string `a` comes before the string `b`.
pub fn str_lt(a: &str, b: &str) -> (r: bool)
    ensures
        r == seq_lt(a@, b@),
{
    let na = a.unicode_len();
    let nb = b.unicode_len();
    let mut i: usize = 0;
    assert(a@.skip(0) =~= a@);
    assert(b@.skip(0) =~= b@);
    while i < na && i < nb
        invariant
            na == a@.len(),
            nb == b@.len(),
            i <= na,
            i <= nb,
            seq_lt(a@, b@) == seq_lt(a@.skip(i as int), b@.skip(i as int)),
        decreases na - i,
    {
        let x = a.get_char(i);
        let y = b.get_char(i);
        assert(a@.skip(i as int)[0] == x);
        assert(b@.skip(i as int)[0] == y);
        if x != y {
            return x < y;
        }
        assert(a@.skip(i as int).drop_first() =~= a@.skip(i + 1));
        assert(b@.skip(i as int).drop_first() =~= b@.skip(i + 1));
        i = i + 1;
    }
    if i == na {
        assert(a@.skip(i as int).len() == 0);
    } else {
        assert(b@.skip(i as int).len() == 0);
    }
    na - i < nb - i
}

/// Named items with their names as plain sequences.
pub open spec fn named_view<T>(s: Seq<(String, T)>) -> Seq<(Seq<char>, T)> {
    s.map_values(|e: (String, T)| (e.0@, e.1))
}

/// Where an item named `k` goes among sorted items, from `i` on: before the
/// first item whose name comes after `k`, so after the items of its name.
pub open spec fn insert_place<T>(s: Seq<(Seq<char>, T)>, k: Seq<char>, i: int) -> int
    decreases s.len() - i,
{
    if i < 0 || i >= s.len() {
        s.len() as int
    } else if seq_lt(k, s[i].0) {
        i
    } else {
        insert_place(s, k, i + 1)
    }
}

/// Sorted items with `x` put in its place.
pub open spec fn insert_sorted<T>(s: Seq<(Seq<char>, T)>, x: (Seq<char>, T)) -> Seq<(Seq<char>, T)> {
    s.insert(insert_place(s, x.0, 0), x)
}

/// The items sorted by name; items of the same name keep their order.
pub open spec fn sorted_by_name<T>(s: Seq<(Seq<char>, T)>) -> Seq<(Seq<char>, T)>
    decreases s.len(),
{
    if s.len() == 0 {
        s
    } else {
        insert_sorted(sorted_by_name(s.drop_last()), s.last())
    }
}

/// Whether no item comes after one whose name comes before its own.
pub open spec fn is_sorted_by_name<T>(s: Seq<(Seq<char>, T)>) -> bool {
    forall|i: int, j: int| 0 <= i < j < s.len() ==> !seq_lt(#[trigger] s[j].0, #[trigger] s[i].0)
}

proof fn lemma_insert_place_bounds<T>(s: Seq<(Seq<char>, T)>, k: Seq<char>, i: int)
    requires
        0 <= i <= s.len(),
    ensures
        i <= insert_place(s, k, i) <= s.len(),
        forall|j: int| i <= j < insert_place(s, k, i) ==> !seq_lt(k, #[trigger] s[j].0),
        insert_place(s, k, i) < s.len() ==> seq_lt(k, s[insert_place(s, k, i)].0),
    decreases s.len() - i,
{
    if i < s.len() && !seq_lt(k, s[i].0) {
        lemma_insert_place_bounds(s, k, i + 1);
    }
}

proof fn lemma_insert_keeps_sorted<T>(s: Seq<(Seq<char>, T)>, x: (Seq<char>, T))
    requires
        is_sorted_by_name(s),
    ensures
        is_sorted_by_name(insert_sorted(s, x)),
{
    let p = insert_place(s, x.0, 0);
    lemma_insert_place_bounds(s, x.0, 0);
    let r = insert_sorted(s, x);
    s.insert_ensures(p, x);
    assert forall|i: int, j: int| 0 <= i < j < r.len() implies !seq_lt(#[trigger] r[j].0, #[trigger] r[i].0) by {
        if i < p && j == p {
            assert(r[i] == s[i]);
            assert(!seq_lt(x.0, s[i].0));
            if seq_lt(x.0, s[i].0) {
            }
            if seq_lt(r[j].0, r[i].0) {
                assert(!seq_lt(x.0, s[i].0));
            }
        } else if i == p && j > p {
            assert(r[j] == s[j - 1]);
            if seq_lt(s[j - 1].0, x.0) {
                if p < s.len() {
                    assert(seq_lt(x.0, s[p].0));
                    lemma_lt_transitive(s[j - 1].0, x.0, s[p].0);
                    lemma_lt_irreflexive(s[p].0);
                    assert(!seq_lt(s[j - 1].0, s[p].0));
                }
            }
        } else if j < p {
            assert(r[i] == s[i] && r[j] == s[j]);
        } else if i < p && j > p {
            assert(r[i] == s[i] && r[j] == s[j - 1]);
        } else {
            assert(r[i] == s[i - 1] && r[j] == s[j - 1]);
        }
    }
}

/// Sorting by name gives items sorted by name, the same items as before,
/// each as many times.
pub proof fn lemma_sorted_by_name<T>(s: Seq<(Seq<char>, T)>)
    ensures
        is_sorted_by_name(sorted_by_name(s)),
        sorted_by_name(s).to_multiset() == s.to_multiset(),
        sorted_by_name(s).len() == s.len(),
    decreases s.len(),
{
    broadcast use vstd::seq_lib::to_multiset_insert, vstd::seq_lib::to_multiset_build, vstd::seq_lib::to_multiset_len;

    if s.len() > 0 {
        let t = sorted_by_name(s.drop_last());
        lemma_sorted_by_name(s.drop_last());
        lemma_insert_keeps_sorted(t, s.last());
        lemma_insert_place_bounds(t, s.last().0, 0);
        assert(s =~= s.drop_last().push(s.last()));
    }
}

/// Whether some item is named `k`.
pub open spec fn has_name<T>(s: Seq<(Seq<char>, T)>, k: Seq<char>) -> bool {
    exists|i: int| 0 <= i < s.len() && #[trigger] s[i].0 == k
}

/// Whether no two items have the same name.
pub open spec fn names_distinct<T>(s: Seq<(Seq<char>, T)>) -> bool {
    forall|i: int, j: int| 0 <= i < j < s.len() ==> #[trigger] s[i].0 != #[trigger] s[j].0
}

proof fn lemma_insert_sorted_names<T>(s: Seq<(Seq<char>, T)>, x: (Seq<char>, T))
    ensures
        forall|k: Seq<char>| has_name(insert_sorted(s, x), k) <==> (has_name(s, k) || k == x.0),
        names_distinct(s) && !has_name(s, x.0) ==> names_distinct(insert_sorted(s, x)),
{
    let p = insert_place(s, x.0, 0);
    lemma_insert_place_bounds(s, x.0, 0);
    let r = insert_sorted(s, x);
    s.insert_ensures(p, x);
    assert forall|k: Seq<char>| has_name(r, k) <==> (has_name(s, k) || k == x.0) by {
        if has_name(r, k) {
            let i = choose|i: int| 0 <= i < r.len() && #[trigger] r[i].0 == k;
            if i < p {
                assert(s[i].0 == k);
            } else if i > p {
                assert(s[i - 1].0 == k);
            }
        }
        if has_name(s, k) {
            let i = choose|i: int| 0 <= i < s.len() && #[trigger] s[i].0 == k;
            if i < p {
                assert(r[i].0 == k);
            } else {
                assert(r[i + 1].0 == k);
            }
        }
        if k == x.0 {
            assert(r[p].0 == k);
        }
    }
    if names_distinct(s) && !has_name(s, x.0) {
        assert forall|i: int, j: int| 0 <= i < j < r.len() implies #[trigger] r[i].0 != #[trigger] r[j].0 by {
            if i == p {
                assert(r[j] == s[j - 1]);
                if r[j].0 == x.0 {
                    assert(has_name(s, x.0));
                }
            } else if j == p {
                assert(r[i] == s[i]);
                if r[i].0 == x.0 {
                    assert(has_name(s, x.0));
                }
            } else if j < p {
                assert(r[i] == s[i] && r[j] == s[j]);
            } else if i < p {
                assert(r[i] == s[i] && r[j] == s[j - 1]);
            } else {
                assert(r[i] == s[i - 1] && r[j] == s[j - 1]);
            }
        }
    }
}

/// Sorting by name keeps the names, and keeps them distinct when they were.
pub proof fn lemma_sorted_by_name_names<T>(s: Seq<(Seq<char>, T)>)
    ensures
        forall|k: Seq<char>| has_name(sorted_by_name(s), k) <==> has_name(s, k),
        names_distinct(s) ==> names_distinct(sorted_by_name(s)),
    decreases s.len(),
{
    if s.len() > 0 {
        let t = s.drop_last();
        lemma_sorted_by_name_names(t);
        lemma_insert_sorted_names(sorted_by_name(t), s.last());
        assert forall|k: Seq<char>| has_name(s, k) <==> (has_name(t, k) || k == s.last().0) by {
            if has_name(s, k) {
                let i = choose|i: int| 0 <= i < s.len() && #[trigger] s[i].0 == k;
                if i < s.len() - 1 {
                    assert(t[i].0 == k);
                }
            }
            if has_name(t, k) {
                let i = choose|i: int| 0 <= i < t.len() && #[trigger] t[i].0 == k;
                assert(s[i].0 == k);
            }
            if k == s.last().0 {
                assert(s[s.len() - 1].0 == k);
            }
        }
        if names_distinct(s) {
            assert(names_distinct(t)) by {
                assert forall|i: int, j: int| 0 <= i < j < t.len() implies #[trigger] t[i].0 != #[trigger] t[j].0 by {
                    assert(t[i] == s[i] && t[j] == s[j]);
                }
            }
            if has_name(t, s.last().0) {
                let i = choose|i: int| 0 <= i < t.len() && #[trigger] t[i].0 == s.last().0;
                assert(s[i].0 == s[s.len() - 1].0);
            }
        }
    }
}

/// Named items with each value changed by `g`.
pub open spec fn map_named<A, B>(s: Seq<(Seq<char>, A)>, g: spec_fn(A) -> B) -> Seq<(Seq<char>, B)> {
    s.map_values(|e: (Seq<char>, A)| (e.0, g(e.1)))
}

proof fn lemma_insert_place_map<A, B>(s: Seq<(Seq<char>, A)>, g: spec_fn(A) -> B, k: Seq<char>, i: int)
    ensures
        insert_place(map_named(s, g), k, i) == insert_place(s, k, i),
    decreases s.len() - i,
{
    if 0 <= i < s.len() {
        lemma_insert_place_map(s, g, k, i + 1);
    }
}

/// Sorting by name does not look at the values: changing them before or
/// after sorting gives the same items.
pub proof fn lemma_sort_map<A, B>(s: Seq<(Seq<char>, A)>, g: spec_fn(A) -> B)
    ensures
        sorted_by_name(map_named(s, g)) == map_named(sorted_by_name(s), g),
    decreases s.len(),
{
    if s.len() > 0 {
        lemma_sort_map(s.drop_last(), g);
        assert(map_named(s, g).drop_last() =~= map_named(s.drop_last(), g));
        let t = sorted_by_name(s.drop_last());
        lemma_insert_place_map(t, g, s.last().0, 0);
        lemma_insert_place_bounds(t, s.last().0, 0);
        let p = insert_place(t, s.last().0, 0);
        assert(map_named(t.insert(p, s.last()), g) =~= map_named(t, g).insert(p, (s.last().0, g(s.last().1))));
    }
}

/// Sorts named items by name; items of the same name keep their order.
pub fn sort_by_name<T>(v: Vec<(String, T)>) -> (r: Vec<(String, T)>)
    ensures
        named_view(r@) == sorted_by_name(named_view(v@)),
{
    let ghost vv = named_view(v@);
    let mut r: Vec<(String, T)> = Vec::new();
    proof {
        assert(named_view(r@) =~= sorted_by_name(vv.take(0)));
    }
    for x in it: v
        invariant
            vv == named_view(it.seq()),
            named_view(r@) == sorted_by_name(vv.take(it.index() as int)),
    {
        let ghost rv = named_view(r@);
        let ghost xv = (x.0@, x.1);
        let mut j: usize = 0;
        while j < r.len() && !str_lt(x.0.as_str(), r[j].0.as_str())
            invariant
                rv == named_view(r@),
                xv == (x.0@, x.1),
                j <= r@.len(),
                insert_place(rv, xv.0, 0) == insert_place(rv, xv.0, j as int),
            decreases r@.len() - j,
        {
            assert(rv[j as int].0 == r@[j as int].0@);
            j = j + 1;
        }
        proof {
            if j < r@.len() {
                assert(rv[j as int].0 == r@[j as int].0@);
            }
            assert(insert_place(rv, xv.0, 0) == j);
            assert(vv.take(it.index() + 1).drop_last() =~= vv.take(it.index() as int));
            assert(vv.take(it.index() + 1).last() == xv);
        }
        r.insert(j, x);
        proof {
            assert(named_view(r@) =~= rv.insert(j as int, xv));
        }
    }
    proof {
        assert(vv.take(vv.len() as int) =~= vv);
    }
    r
}

} // verus!
