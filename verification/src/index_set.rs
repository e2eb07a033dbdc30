//! Insertion-ordered sets of strings and of string pairs (`indexmap::IndexSet`).
use vstd::prelude::*;

use indexmap::IndexSet;

verus! {

#[verifier::external_type_specification]
#[verifier::external_body]
#[verifier::reject_recursive_types(T)]
#[verifier::reject_recursive_types(S)]
pub struct ExIndexSet<T, S>(IndexSet<T, S>);

/// The strings that an `IndexSet<String>` holds, in insertion order.
pub uninterp spec fn string_set_items(s: IndexSet<String>) -> Seq<Seq<char>>;

/// The pairs that an `IndexSet<(String, String)>` holds, in insertion order.
pub uninterp spec fn pair_set_items(s: IndexSet<(String, String)>) -> Seq<(Seq<char>, Seq<char>)>;

/// `IndexSet::new`: an empty set.
#[verifier::external_body]
pub(crate) fn string_set_new() -> (r: IndexSet<String>)
    ensures
        string_set_items(r) == Seq::<Seq<char>>::empty(),
{
    IndexSet::new()
}

/// `IndexSet::insert`: an item equal to one already held leaves the set as
/// it is; any other item is appended. Returns whether it was appended.
#[verifier::external_body]
pub(crate) fn string_set_insert(s: &mut IndexSet<String>, v: String) -> (r: bool)
    ensures
        r == !string_set_items(*old(s)).contains(v@),
        string_set_items(*final(s)) == if string_set_items(*old(s)).contains(v@) {
            string_set_items(*old(s))
        } else {
            string_set_items(*old(s)).push(v@)
        },
{
    s.insert(v)
}

/// `IndexSet::len`: the number of items.
#[verifier::external_body]
pub(crate) fn string_set_len(s: &IndexSet<String>) -> (r: usize)
    ensures
        r == string_set_items(*s).len(),
{
    s.len()
}

/// `IndexSet::get_index`: the item at an index, among items that are all
/// distinct (a set holds no item twice).
#[verifier::external_body]
pub(crate) fn string_set_get(s: &IndexSet<String>, i: usize) -> (r: Option<&String>)
    ensures
        match r {
            Some(v) => {
                &&& i < string_set_items(*s).len()
                &&& v@ == string_set_items(*s)[i as int]
                &&& string_set_items(*s).no_duplicates()
            },
            None => i >= string_set_items(*s).len() && string_set_items(*s).no_duplicates(),
        },
{
    s.get_index(i)
}

/// `IndexSet::new`: an empty set.
#[verifier::external_body]
pub(crate) fn pair_set_new() -> (r: IndexSet<(String, String)>)
    ensures
        pair_set_items(r) == Seq::<(Seq<char>, Seq<char>)>::empty(),
{
    IndexSet::new()
}

/// `IndexSet::insert`: an item equal to one already held leaves the set as
/// it is; any other item is appended. Returns whether it was appended.
#[verifier::external_body]
pub(crate) fn pair_set_insert(s: &mut IndexSet<(String, String)>, v: (String, String)) -> (r: bool)
    ensures
        r == !pair_set_items(*old(s)).contains((v.0@, v.1@)),
        pair_set_items(*final(s)) == if pair_set_items(*old(s)).contains((v.0@, v.1@)) {
            pair_set_items(*old(s))
        } else {
            pair_set_items(*old(s)).push((v.0@, v.1@))
        },
{
    s.insert(v)
}

/// `IndexSet::len`: the number of items.
#[verifier::external_body]
pub(crate) fn pair_set_len(s: &IndexSet<(String, String)>) -> (r: usize)
    ensures
        r == pair_set_items(*s).len(),
{
    s.len()
}

/// `IndexSet::get_index`: the item at an index, among items that are all
/// distinct (a set holds no item twice).
#[verifier::external_body]
pub(crate) fn pair_set_get(s: &IndexSet<(String, String)>, i: usize) -> (r: Option<&(String, String)>)
    ensures
        match r {
            Some(v) => {
                &&& i < pair_set_items(*s).len()
                &&& (v.0@, v.1@) == pair_set_items(*s)[i as int]
                &&& pair_set_items(*s).no_duplicates()
            },
            None => i >= pair_set_items(*s).len() && pair_set_items(*s).no_duplicates(),
        },
{
    s.get_index(i)
}

/// The distinct items of `s`, each where it first occurs.
pub open spec fn dedup<T>(s: Seq<T>) -> Seq<T>
    decreases s.len(),
{
    if s.len() == 0 {
        s
    } else {
        let r = dedup(s.drop_last());
        if r.contains(s.last()) {
            r
        } else {
            r.push(s.last())
        }
    }
}

/// The set of the given strings, each once, in order of first occurrence.
pub fn string_set_from(items: Vec<String>) -> (r: IndexSet<String>)
    ensures
        string_set_items(r) == dedup(items@.map_values(|x: String| x@)),
{
    let ghost all = items@.map_values(|x: String| x@);
    let mut r = string_set_new();
    for v in it: items
        invariant
            all == it.seq().map_values(|x: String| x@),
            string_set_items(r) == dedup(all.take(it.index() as int)),
    {
        proof {
            assert(all.take(it.index() + 1).drop_last() =~= all.take(it.index() as int));
        }
        string_set_insert(&mut r, v);
    }
    assert(all.take(all.len() as int) =~= all);
    r
}

/// The set of the given pairs, each once, in order of first occurrence.
pub fn pair_set_from(items: Vec<(String, String)>) -> (r: IndexSet<(String, String)>)
    ensures
        pair_set_items(r) == dedup(items@.map_values(|x: (String, String)| (x.0@, x.1@))),
{
    let ghost all = items@.map_values(|x: (String, String)| (x.0@, x.1@));
    let mut r = pair_set_new();
    for v in it: items
        invariant
            all == it.seq().map_values(|x: (String, String)| (x.0@, x.1@)),
            pair_set_items(r) == dedup(all.take(it.index() as int)),
    {
        proof {
            assert(all.take(it.index() + 1).drop_last() =~= all.take(it.index() as int));
        }
        pair_set_insert(&mut r, v);
    }
    assert(all.take(all.len() as int) =~= all);
    r
}


/// What `dedup` keeps holds nothing twice.
pub proof fn lemma_dedup_no_duplicates<T>(s: Seq<T>)
    ensures
        dedup(s).no_duplicates(),
        forall|x: T| dedup(s).contains(x) <==> s.contains(x),
    decreases s.len(),
{
    if s.len() > 0 {
        lemma_dedup_no_duplicates(s.drop_last());
        let r = dedup(s.drop_last());
        assert forall|x: T| dedup(s).contains(x) <==> s.contains(x) by {
            if s.contains(x) {
                let j = choose|j: int| 0 <= j < s.len() && s[j] == x;
                if j < s.len() - 1 {
                    assert(s.drop_last()[j] == x);
                    assert(s.drop_last().contains(x));
                } else {
                    assert(x == s.last());
                }
            }
            if s.drop_last().contains(x) {
                let j = choose|j: int| 0 <= j < s.drop_last().len() && s.drop_last()[j] == x;
                assert(s[j] == x);
            }
            if !r.contains(s.last()) {
                if dedup(s).contains(x) {
                    let j = choose|j: int| 0 <= j < dedup(s).len() && dedup(s)[j] == x;
                    if j < r.len() {
                        assert(r[j] == x);
                    }
                }
                if r.contains(x) {
                    let j = choose|j: int| 0 <= j < r.len() && r[j] == x;
                    assert(dedup(s)[j] == x);
                }
                assert(dedup(s)[r.len() as int] == s.last());
            }
        }
    }
}

/// A sequence that holds nothing twice is its own `dedup`.
pub proof fn lemma_dedup_distinct<T>(s: Seq<T>)
    requires
        s.no_duplicates(),
    ensures
        dedup(s) == s,
    decreases s.len(),
{
    if s.len() > 0 {
        assert(s.drop_last().no_duplicates());
        lemma_dedup_distinct(s.drop_last());
        if s.drop_last().contains(s.last()) {
            let j = choose|j: int| 0 <= j < s.drop_last().len() && s.drop_last()[j] == s.last();
            assert(s[j] == s[s.len() - 1]);
        }
        assert(s.drop_last().push(s.last()) =~= s);
    }
}

} // verus!
