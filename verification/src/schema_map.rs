//! The schemas of the components, by name, in insertion order
//! (`indexmap::IndexMap`).
use vstd::prelude::*;

use indexmap::IndexMap;

use crate::openapi::{ref_view, view_insert, view_key_index, SchemaRef, SchemaRefV};
use crate::tree::opt_int;

verus! {

#[verifier::external_type_specification]
#[verifier::external_body]
#[verifier::reject_recursive_types(K)]
#[verifier::reject_recursive_types(V)]
#[verifier::reject_recursive_types(S)]
pub struct ExIndexMap<K, V, S>(IndexMap<K, V, S>);

/// The entries of a map of schemas, in insertion order, as plain sequences.
pub uninterp spec fn schema_map_items(m: IndexMap<String, SchemaRef>) -> Seq<(Seq<char>, SchemaRefV)>;

/// `IndexMap::new`: an empty map.
#[verifier::external_body]
fn map_new() -> (r: IndexMap<String, SchemaRef>)
    ensures
        schema_map_items(r) == Seq::<(Seq<char>, SchemaRefV)>::empty(),
{
    IndexMap::new()
}

/// `IndexMap::insert`: a key already held keeps its place and takes the new
/// value; a new key goes last with its value.
#[verifier::external_body]
fn map_insert_entry(m: &mut IndexMap<String, SchemaRef>, k: String, v: SchemaRef)
    ensures
        schema_map_items(*final(m)) == view_insert(schema_map_items(*old(m)), k@, ref_view(v)),
{
    m.insert(k, v);
}

/// `IndexMap::len`: the number of entries.
#[verifier::external_body]
fn map_len(m: &IndexMap<String, SchemaRef>) -> (r: usize)
    ensures
        r == schema_map_items(*m).len(),
{
    m.len()
}

/// `IndexMap::get_index`: the entry at an index.
#[verifier::external_body]
fn map_get_index(m: &IndexMap<String, SchemaRef>, i: usize) -> (r: Option<(&String, &SchemaRef)>)
    ensures
        match r {
            Some((k, v)) => i < schema_map_items(*m).len() && schema_map_items(*m)[i as int] == (
                k@,
                ref_view(*v),
            ),
            None => i >= schema_map_items(*m).len(),
        },
{
    m.get_index(i)
}

/// `IndexMap::get_index_of`: the index of the entry with key `k`. The keys
/// of an `IndexMap` are distinct, so it is the first index with that key.
#[verifier::external_body]
fn map_index_of(m: &IndexMap<String, SchemaRef>, k: &str) -> (r: Option<usize>)
    ensures
        opt_int(r) == view_key_index(schema_map_items(*m), k@, 0),
{
    m.get_index_of(k)
}

/// `IndexMap::get_index_mut` with `std::mem::replace`: puts `v` in place of
/// the value at index `i` and returns the value that was there.
#[verifier::external_body]
fn map_replace_at(m: &mut IndexMap<String, SchemaRef>, i: usize, v: SchemaRef) -> (r: SchemaRef)
    requires
        i < schema_map_items(*old(m)).len(),
    ensures
        ref_view(r) == schema_map_items(*old(m))[i as int].1,
        schema_map_items(*final(m)) == schema_map_items(*old(m)).update(
            i as int,
            (schema_map_items(*old(m))[i as int].0, ref_view(v)),
        ),
{
    std::mem::replace(m.get_index_mut(i).unwrap().1, v)
}

/// An empty map of schemas.
pub fn schemas_new() -> (r: IndexMap<String, SchemaRef>)
    ensures
        schema_map_items(r) == Seq::<(Seq<char>, SchemaRefV)>::empty(),
{
    map_new()
}

/// Inserts the schema `v` under the name `k`: a name already held keeps its
/// place and takes the new schema; a new name goes last.
pub fn schemas_insert(m: &mut IndexMap<String, SchemaRef>, k: String, v: SchemaRef)
    ensures
        schema_map_items(*final(m)) == view_insert(schema_map_items(*old(m)), k@, ref_view(v)),
{
    map_insert_entry(m, k, v)
}

/// The number of schemas.
pub fn schemas_len(m: &IndexMap<String, SchemaRef>) -> (r: usize)
    ensures
        r == schema_map_items(*m).len(),
{
    map_len(m)
}

/// The name and schema at index `i`.
pub fn schemas_get_index(m: &IndexMap<String, SchemaRef>, i: usize) -> (r: Option<(&String, &SchemaRef)>)
    ensures
        match r {
            Some((k, v)) => i < schema_map_items(*m).len() && schema_map_items(*m)[i as int] == (
                k@,
                ref_view(*v),
            ),
            None => i >= schema_map_items(*m).len(),
        },
{
    map_get_index(m, i)
}

/// The index of the schema named `k`.
pub fn schemas_index_of(m: &IndexMap<String, SchemaRef>, k: &str) -> (r: Option<usize>)
    ensures
        opt_int(r) == view_key_index(schema_map_items(*m), k@, 0),
{
    map_index_of(m, k)
}

/// Takes the schema at index `i` out of the map, leaving `v` in its place.
pub fn schemas_replace_at(m: &mut IndexMap<String, SchemaRef>, i: usize, v: SchemaRef) -> (r: SchemaRef)
    requires
        i < schema_map_items(*old(m)).len(),
    ensures
        ref_view(r) == schema_map_items(*old(m))[i as int].1,
        schema_map_items(*final(m)) == schema_map_items(*old(m)).update(
            i as int,
            (schema_map_items(*old(m))[i as int].0, ref_view(v)),
        ),
{
    map_replace_at(m, i, v)
}

} // verus!
