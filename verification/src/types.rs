//! The types of the API, read from their pages and kept by name.
use vstd::prelude::*;

use crate::detail_page::detail_page_of;
use crate::doc_type::{describes, elements_html, Type};
use crate::index_set::{string_set_get, string_set_items, string_set_len};
use crate::openapi::{
    entries_insert, key_index, lemma_key_index_bound, map_insert, pairs_view, view_insert,
    view_key_index,
};
use crate::order::{
    is_sorted_by_name, lemma_lt_total, lemma_sorted_by_name, lemma_sorted_by_name_names,
    named_view, names_distinct, seq_lt, sort_by_name, sorted_by_name,
};

verus! {

/// What reading the type page `html` gives: the type it describes, or
/// nothing when it cannot be read.
pub open spec fn page_type(html: Seq<char>, r: Option<Type>) -> bool {
    match detail_page_of(html) {
        Err(_) => r is None,
        Ok((_, h1, es)) => match r {
            Some(t) => describes(t, h1, es),
            None => elements_html(es) is None,
        },
    }
}

/// The types read, each under its name; a later type takes the place of an
/// earlier one of the same name.
pub open spec fn types_by_name(parsed: Seq<Option<Type>>) -> Seq<(Seq<char>, Type)>
    decreases parsed.len(),
{
    if parsed.len() == 0 {
        Seq::empty()
    } else {
        let r = types_by_name(parsed.drop_last());
        match parsed.last() {
            Some(t) => view_insert(r, t.name@, t),
            None => r,
        }
    }
}

proof fn lemma_named_key_index<V>(ps: Seq<(String, V)>, k: Seq<char>, i: int)
    ensures
        key_index(ps, k, i) == view_key_index(named_view(ps), k, i),
    decreases ps.len() - i,
{
    if 0 <= i < ps.len() {
        lemma_named_key_index(ps, k, i + 1);
    }
}

/// Inserting a named item, seen with its name as a plain sequence.
pub proof fn lemma_named_insert<V>(ps: Seq<(String, V)>, k: String, v: V)
    ensures
        named_view(map_insert(ps, k, v)) == view_insert(named_view(ps), k@, v),
{
    lemma_named_key_index(ps, k@, 0);
    lemma_key_index_bound(ps, k@, 0);
    assert(named_view(map_insert(ps, k, v)) =~= view_insert(named_view(ps), k@, v));
}

proof fn lemma_types_by_name_entries(parsed: Seq<Option<Type>>)
    ensures
        names_distinct(types_by_name(parsed)),
        forall|i: int| 0 <= i < types_by_name(parsed).len() ==> (#[trigger] types_by_name(parsed)[i]).1.name@
            == types_by_name(parsed)[i].0,
    decreases parsed.len(),
{
    if parsed.len() > 0 {
        lemma_types_by_name_entries(parsed.drop_last());
        let r = types_by_name(parsed.drop_last());
        match parsed.last() {
            Some(t) => {
                crate::openapi::lemma_insert_keeps_keys_distinct(r, t.name@, t);
                crate::openapi::lemma_view_key_index_bound(r, t.name@, 0);
                let q = view_insert(r, t.name@, t);
                assert forall|i: int| 0 <= i < q.len() implies (#[trigger] q[i]).1.name@ == q[i].0 by {
                    if i < r.len() && q[i] != (t.name@, t) {
                        assert(q[i] == r[i]);
                    }
                }
            },
            None => {},
        }
    }
}

/// The types kept by name are in the order of their names, each name once,
/// and each type is kept under its own name.
pub proof fn lemma_types_ordered(parsed: Seq<Option<Type>>)
    ensures
        ({
            let r = sorted_by_name(types_by_name(parsed));
            &&& forall|i: int, j: int| 0 <= i < j < r.len() ==> seq_lt(#[trigger] r[i].0, #[trigger] r[j].0)
            &&& forall|i: int| 0 <= i < r.len() ==> (#[trigger] r[i]).1.name@ == r[i].0
        }),
{
    broadcast use vstd::seq_lib::to_multiset_contains;

    let t = types_by_name(parsed);
    let r = sorted_by_name(t);
    lemma_types_by_name_entries(parsed);
    lemma_sorted_by_name(t);
    lemma_sorted_by_name_names(t);
    assert forall|i: int, j: int| 0 <= i < j < r.len() implies seq_lt(#[trigger] r[i].0, #[trigger] r[j].0) by {
        assert(!seq_lt(r[j].0, r[i].0));
        assert(r[i].0 != r[j].0);
        lemma_lt_total(r[i].0, r[j].0);
    }
    assert forall|i: int| 0 <= i < r.len() implies (#[trigger] r[i]).1.name@ == r[i].0 by {
        assert(r.contains(r[i]));
        assert(r.to_multiset().count(r[i]) > 0);
        assert(t.contains(r[i]));
        let k = choose|k: int| 0 <= k < t.len() && t[k] == r[i];
        assert(t[k].1.name@ == t[k].0);
    }
}

/// Reads each type page; nothing for a page that cannot be read.
fn parse_types(pages: &Vec<(String, String)>) -> (r: Vec<Option<Type>>)
    ensures
        r@.len() == pages@.len(),
        forall|k: int| 0 <= k < r@.len() ==> page_type(pages@[k].1@, #[trigger] r@[k]),
{
    let mut r: Vec<Option<Type>> = Vec::new();
    let mut k: usize = 0;
    while k < pages.len()
        invariant
            k <= pages@.len(),
            r@.len() == k,
            forall|j: int| 0 <= j < k ==> page_type(pages@[j].1@, #[trigger] r@[j]),
        decreases pages@.len() - k,
    {
        let t = match Type::try_from(pages[k].1.as_str()) {
            Ok(t) => Some(t),
            Err(_) => None,
        };
        r.push(t);
        k = k + 1;
    }
    r
}

/// The types read, each under its name, sorted by name.
fn by_name(parsed: Vec<Option<Type>>) -> (r: Vec<(String, Type)>)
    ensures
        named_view(r@) == sorted_by_name(types_by_name(parsed@)),
{
    let ghost pv = parsed@;
    let mut acc: Vec<(String, Type)> = Vec::new();
    proof {
        assert(named_view(acc@) =~= types_by_name(pv.take(0)));
    }
    for t in it: parsed
        invariant
            pv == it.seq(),
            named_view(acc@) == types_by_name(pv.take(it.index() as int)),
    {
        proof {
            assert(pv.take(it.index() + 1).drop_last() =~= pv.take(it.index() as int));
            assert(pv.take(it.index() + 1).last() == t);
        }
        match t {
            Some(t) => {
                let name = t.name.clone();
                proof {
                    lemma_named_insert(acc@, name, t);
                }
                entries_insert(&mut acc, name, t);
            },
            None => {},
        }
    }
    proof {
        assert(pv.take(pv.len() as int) =~= pv);
    }
    sort_by_name(acc)
}

/// The types of the type pages (name, HTML), each under its name, sorted by
/// name; pages that cannot be read are left out, and of two types of the
/// same name the later page's is kept.
pub fn types(pages: &Vec<(String, String)>) -> (r: Vec<(String, Type)>)
    ensures
        exists|parsed: Seq<Option<Type>>|
            parsed.len() == pages@.len() && (forall|k: int|
                0 <= k < parsed.len() ==> page_type(pages@[k].1@, #[trigger] parsed[k]))
                && #[trigger] sorted_by_name(types_by_name(parsed)) == named_view(r@),
{
    let parsed = parse_types(pages);
    let ghost pv = parsed@;
    let r = by_name(parsed);
    assert(sorted_by_name(types_by_name(pv)) == named_view(r@));
    r
}

/// The elements of the types, each with the name of its type: the types
/// in order, the elements of each in order; a later type takes an element
/// from an earlier one.
pub open spec fn elements_from(ts: Seq<(Seq<char>, Seq<Seq<char>>)>) -> Seq<(Seq<char>, Seq<char>)>
    decreases ts.len(),
{
    if ts.len() == 0 {
        Seq::empty()
    } else {
        let last = ts.last();
        elements_of_type(elements_from(ts.drop_last()), last.1, last.0)
    }
}

/// The map `m` with each element of `es` mapped to `name`.
pub open spec fn elements_of_type(m: Seq<(Seq<char>, Seq<char>)>, es: Seq<Seq<char>>, name: Seq<char>) -> Seq<
    (Seq<char>, Seq<char>),
>
    decreases es.len(),
{
    if es.len() == 0 {
        m
    } else {
        view_insert(elements_of_type(m, es.drop_last(), name), es.last(), name)
    }
}

/// The types with their names and the names of their elements.
pub open spec fn type_elements(ts: Seq<(String, Type)>) -> Seq<(Seq<char>, Seq<Seq<char>>)> {
    ts.map_values(|e: (String, Type)| (e.0@, string_set_items(e.1.elements)))
}

proof fn lemma_pairs_key_index(ps: Seq<(String, String)>, k: Seq<char>, i: int)
    ensures
        key_index(ps, k, i) == view_key_index(pairs_view(ps), k, i),
    decreases ps.len() - i,
{
    if 0 <= i < ps.len() {
        lemma_pairs_key_index(ps, k, i + 1);
    }
}

proof fn lemma_pairs_insert(ps: Seq<(String, String)>, k: String, v: String)
    ensures
        pairs_view(map_insert(ps, k, v)) == view_insert(pairs_view(ps), k@, v@),
{
    lemma_pairs_key_index(ps, k@, 0);
    lemma_key_index_bound(ps, k@, 0);
    assert(pairs_view(map_insert(ps, k, v)) =~= view_insert(pairs_view(ps), k@, v@));
}

/// The map from each element of the types to the name of its type.
pub fn element_mapping(types: &Vec<(String, Type)>) -> (r: Vec<(String, String)>)
    ensures
        pairs_view(r@) == elements_from(type_elements(types@)),
{
    let ghost tv = type_elements(types@);
    let mut m: Vec<(String, String)> = Vec::new();
    let mut k: usize = 0;
    while k < types.len()
        invariant
            tv == type_elements(types@),
            k <= types@.len(),
            pairs_view(m@) == elements_from(tv.take(k as int)),
        decreases types@.len() - k,
    {
        let (name, t) = (&types[k].0, &types[k].1);
        let ghost items = string_set_items(t.elements);
        let ghost m0 = pairs_view(m@);
        let n = string_set_len(&t.elements);
        let mut i: usize = 0;
        while i < n
            invariant
                n == items.len(),
                items == string_set_items(t.elements),
                i <= n,
                pairs_view(m@) == elements_of_type(m0, items.take(i as int), name@),
            decreases n - i,
        {
            let e = match string_set_get(&t.elements, i) {
                Some(e) => e.clone(),
                None => String::new(),
            };
            let nm = name.clone();
            proof {
                assert(items.take(i + 1).drop_last() =~= items.take(i as int));
                assert(items.take(i + 1).last() == e@);
                lemma_pairs_insert(m@, e, nm);
            }
            entries_insert(&mut m, e, nm);
            i = i + 1;
        }
        proof {
            assert(items.take(n as int) =~= items);
            assert(tv.take(k + 1).drop_last() =~= tv.take(k as int));
            assert(tv.take(k + 1).last() == (name@, items));
        }
        k = k + 1;
    }
    proof {
        assert(tv.take(tv.len() as int) =~= tv);
    }
    m
}

} // verus!
