//! Which files of the documentation archive are read, and in which order:
//! the pages of a directory with a given extension, and the XML Schemas,
//! each list sorted by name.
use vstd::prelude::*;

use crate::order::{lemma_sorted_by_name, named_view, sort_by_name, sorted_by_name};
use crate::text::{ends_with, is_suffix, starts_with};
use crate::xsd::schema::{is_schema_file, is_schema_file_name};

verus! {

/// Whether the file `n` is in the directory `dir` (at any depth) and ends
/// with `ext`.
pub open spec fn is_file_in(n: Seq<char>, dir: Seq<char>, ext: Seq<char>) -> bool {
    dir.is_prefix_of(n) && is_suffix(ext, n)
}

/// The names among `names` that `keep` holds of, in their order.
pub open spec fn kept_names(names: Seq<Seq<char>>, keep: spec_fn(Seq<char>) -> bool) -> Seq<Seq<char>>
    decreases names.len(),
{
    if names.len() == 0 {
        Seq::empty()
    } else {
        let r = kept_names(names.drop_last(), keep);
        if keep(names.last()) {
            r.push(names.last())
        } else {
            r
        }
    }
}

/// Names as items without values, to be sorted by name.
pub open spec fn as_named(names: Seq<Seq<char>>) -> Seq<(Seq<char>, ())> {
    names.map_values(|n: Seq<char>| (n, ()))
}

/// The names sorted.
pub open spec fn sorted_names(names: Seq<Seq<char>>) -> Seq<Seq<char>> {
    sorted_by_name(as_named(names)).map_values(|e: (Seq<char>, ())| e.0)
}

pub open spec fn strings_view(v: Seq<String>) -> Seq<Seq<char>> {
    v.map_values(|s: String| s@)
}

/// The names sorted.
fn sort_names(names: Vec<String>) -> (r: Vec<String>)
    ensures
        strings_view(r@) == sorted_names(strings_view(names@)),
{
    let ghost nv = strings_view(names@);
    let mut items: Vec<(String, ())> = Vec::new();
    for n in it: names
        invariant
            nv == strings_view(it.seq()),
            named_view(items@) == as_named(nv.take(it.index() as int)),
    {
        proof {
            assert(nv[it.index() as int] == n@);
            assert(nv.take(it.index() + 1) =~= nv.take(it.index() as int).push(n@));
            assert(named_view(items@.push((n, ()))) =~= named_view(items@).push((n@, ())));
            assert(as_named(nv.take(it.index() as int).push(n@)) =~= as_named(nv.take(it.index() as int)).push((n@, ())));
        }
        items.push((n, ()));
    }
    proof {
        assert(nv.take(nv.len() as int) =~= nv);
    }
    let sorted = sort_by_name(items);
    let ghost sv = named_view(sorted@);
    let mut r: Vec<String> = Vec::new();
    for e in it: sorted
        invariant
            sv == named_view(it.seq()),
            strings_view(r@) == sv.take(it.index() as int).map_values(|e: (Seq<char>, ())| e.0),
    {
        proof {
            assert(sv[it.index() as int].0 == e.0@);
            assert(sv.take(it.index() + 1) =~= sv.take(it.index() as int).push(sv[it.index() as int]));
            assert(strings_view(r@.push(e.0)) =~= strings_view(r@).push(e.0@));
            assert(sv.take(it.index() as int).push(sv[it.index() as int]).map_values(|e: (Seq<char>, ())| e.0)
                =~= sv.take(it.index() as int).map_values(|e: (Seq<char>, ())| e.0).push(e.0@));
        }
        r.push(e.0);
    }
    proof {
        assert(sv.take(sv.len() as int) =~= sv);
    }
    r
}

/// The files of the archive in the directory `dir` that end with `ext`,
/// sorted by name.
pub fn files_in(names: &Vec<String>, dir: &str, ext: &str) -> (r: Vec<String>)
    ensures
        strings_view(r@) == sorted_names(
            kept_names(strings_view(names@), |n: Seq<char>| is_file_in(n, dir@, ext@)),
        ),
{
    let ghost keep = |n: Seq<char>| is_file_in(n, dir@, ext@);
    let ghost nv = strings_view(names@);
    let mut kept: Vec<String> = Vec::new();
    let mut k: usize = 0;
    while k < names.len()
        invariant
            nv == strings_view(names@),
            keep == (|n: Seq<char>| is_file_in(n, dir@, ext@)),
            k <= names@.len(),
            strings_view(kept@) == kept_names(nv.take(k as int), keep),
        decreases names@.len() - k,
    {
        proof {
            assert(nv.take(k + 1).drop_last() =~= nv.take(k as int));
            assert(nv.take(k + 1).last() == names@[k as int]@);
        }
        let n = &names[k];
        if starts_with(n.as_str(), dir) && ends_with(n.as_str(), ext) {
            let c = n.clone();
            proof {
                assert(strings_view(kept@.push(c)) =~= strings_view(kept@).push(n@));
            }
            kept.push(c);
        }
        k = k + 1;
    }
    proof {
        assert(nv.take(nv.len() as int) =~= nv);
    }
    sort_names(kept)
}

/// The XML Schemas of the archive, sorted by name.
pub fn schema_files(names: &Vec<String>) -> (r: Vec<String>)
    ensures
        strings_view(r@) == sorted_names(
            kept_names(strings_view(names@), |n: Seq<char>| is_schema_file_name(n)),
        ),
{
    let ghost keep = |n: Seq<char>| is_schema_file_name(n);
    let ghost nv = strings_view(names@);
    let mut kept: Vec<String> = Vec::new();
    let mut k: usize = 0;
    while k < names.len()
        invariant
            nv == strings_view(names@),
            keep == (|n: Seq<char>| is_schema_file_name(n)),
            k <= names@.len(),
            strings_view(kept@) == kept_names(nv.take(k as int), keep),
        decreases names@.len() - k,
    {
        proof {
            assert(nv.take(k + 1).drop_last() =~= nv.take(k as int));
            assert(nv.take(k + 1).last() == names@[k as int]@);
        }
        let n = &names[k];
        if is_schema_file(n.as_str()) {
            let c = n.clone();
            proof {
                assert(strings_view(kept@.push(c)) =~= strings_view(kept@).push(n@));
            }
            kept.push(c);
        }
        k = k + 1;
    }
    proof {
        assert(nv.take(nv.len() as int) =~= nv);
    }
    sort_names(kept)
}

/// The sorted names are in order, and are the names given, each as many
/// times.
pub proof fn lemma_sorted_names(names: Seq<Seq<char>>)
    ensures
        sorted_names(names).len() == names.len(),
        forall|i: int, j: int|
            0 <= i < j < names.len() ==> !crate::order::seq_lt(
                #[trigger] sorted_names(names)[j],
                #[trigger] sorted_names(names)[i],
            ),
        as_named(sorted_names(names)).to_multiset() == as_named(names).to_multiset(),
{
    let s = as_named(names);
    lemma_sorted_by_name(s);
    let t = sorted_by_name(s);
    assert forall|i: int, j: int| 0 <= i < j < names.len() implies !crate::order::seq_lt(
        #[trigger] sorted_names(names)[j],
        #[trigger] sorted_names(names)[i],
    ) by {
        assert(sorted_names(names)[j] == t[j].0);
        assert(sorted_names(names)[i] == t[i].0);
    }
    assert forall|i: int| 0 <= i < t.len() implies #[trigger] as_named(sorted_names(names))[i] == t[i] by {
        let (a, b) = t[i];
        assert(b == ());
    }
    assert(as_named(sorted_names(names)) =~= t);
}

} // verus!
