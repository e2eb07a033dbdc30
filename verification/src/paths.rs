//! The paths of the API: each operation page read into an operation, and
//! the operations gathered by path, each path with its path parameters and
//! an operation for each method.
use vstd::prelude::*;

use crate::detail_page::detail_page_of;
use crate::openapi::{key_index, key_position, pairs_view, view_key_index, ApiOperation};
use crate::operation::{is_api_operation, operation_outcome, output_lead_of, Method, Operation, OperationParseError};
use crate::text::starts_with;

verus! {

/// The index of the first `}` in `s` from `i` on.
pub open spec fn first_close(s: Seq<char>, i: int) -> Option<int>
    decreases s.len() - i,
{
    if i < 0 || i >= s.len() {
        None
    } else if s[i] == '}' {
        Some(i)
    } else {
        first_close(s, i + 1)
    }
}

/// The names of the path parameters of `s` from `i` on: what each match of
/// the pattern `\{([^}]+)}` captures, the matches taken from left to right
/// without overlapping.
pub open spec fn path_params_from(s: Seq<char>, i: int) -> Seq<Seq<char>>
    decreases s.len() - i,
{
    if i < 0 || i >= s.len() {
        Seq::empty()
    } else if s[i] == '{' {
        match first_close(s, i + 1) {
            Some(k) => if k > i + 1 {
                proof {
                    lemma_first_close_bound(s, i + 1);
                }
                seq![s.subrange(i + 1, k)] + path_params_from(s, k + 1)
            } else {
                path_params_from(s, i + 1)
            },
            None => path_params_from(s, i + 1),
        }
    } else {
        path_params_from(s, i + 1)
    }
}

/// The first `}` found from `i` on is at `i` or after, and is a `}`.
pub proof fn lemma_first_close_bound(s: Seq<char>, i: int)
    ensures
        first_close(s, i) matches Some(k) ==> i <= k < s.len() && s[k] == '}',
    decreases s.len() - i,
{
    if 0 <= i < s.len() && s[i] != '}' {
        lemma_first_close_bound(s, i + 1);
    }
}

/// The names of the path parameters of `path`, as
/// `regex::Regex::captures_iter` finds them for the pattern `\{([^}]+)}`:
/// the leftmost match first, each next one after the end of the last, each
/// the text between a `{` and the first `}` after it, when there is text
/// between them.
#[verifier::external_body]
fn path_parameters(path: &str) -> (r: Vec<String>)
    ensures
        r@.map_values(|s: String| s@) == path_params_from(path@, 0),
{
    let re = regex::Regex::new(r"\{([^}]+)}").unwrap();
    re.captures_iter(path).map(|c| c[1].to_string()).collect()
}

/// A path: its path parameters, and the operation for each method.
#[derive(Debug)]
pub struct PathItem {
    pub parameters: Vec<String>,
    pub get: Option<ApiOperation>,
    pub post: Option<ApiOperation>,
    pub put: Option<ApiOperation>,
    pub delete: Option<ApiOperation>,
}

/// A path with its parameters as plain sequences.
pub struct PathItemV {
    pub parameters: Seq<Seq<char>>,
    pub get: Option<ApiOperation>,
    pub post: Option<ApiOperation>,
    pub put: Option<ApiOperation>,
    pub delete: Option<ApiOperation>,
}

pub open spec fn item_view(p: PathItem) -> PathItemV {
    PathItemV {
        parameters: p.parameters@.map_values(|s: String| s@),
        get: p.get,
        post: p.post,
        put: p.put,
        delete: p.delete,
    }
}

/// The paths as plain sequences.
pub open spec fn paths_view(ps: Seq<(String, PathItem)>) -> Seq<(Seq<char>, PathItemV)> {
    ps.map_values(|e: (String, PathItem)| (e.0@, item_view(e.1)))
}

/// A path with `op` as the operation of method `m`.
pub open spec fn with_method(v: PathItemV, m: Method, op: ApiOperation) -> PathItemV {
    match m {
        Method::Get => PathItemV { get: Some(op), ..v },
        Method::Post => PathItemV { post: Some(op), ..v },
        Method::Put => PathItemV { put: Some(op), ..v },
        Method::Delete => PathItemV { delete: Some(op), ..v },
    }
}

/// A new path: its parameters, and no operation.
pub open spec fn new_path(path: Seq<char>) -> PathItemV {
    PathItemV { parameters: path_params_from(path, 0), get: None, post: None, put: None, delete: None }
}

/// The paths with the operation `op` of method `m` on `path` added: to the
/// path when it is there, to a new path at the end otherwise. Operations on
/// paths that do not start with `/` are left out.
pub open spec fn add_operation(
    ps: Seq<(Seq<char>, PathItemV)>,
    m: Method,
    path: Seq<char>,
    op: ApiOperation,
) -> Seq<(Seq<char>, PathItemV)> {
    if !"/"@.is_prefix_of(path) {
        ps
    } else {
        match view_key_index(ps, path, 0) {
            Some(j) => ps.update(j, (path, with_method(ps[j].1, m, op))),
            None => ps.push((path, with_method(new_path(path), m, op))),
        }
    }
}

/// The paths that the operations `ops` (method, path, operation) make, in
/// order.
pub open spec fn paths_from(ops: Seq<(Method, Seq<char>, ApiOperation)>) -> Seq<(Seq<char>, PathItemV)>
    decreases ops.len(),
{
    if ops.len() == 0 {
        Seq::empty()
    } else {
        let o = ops.last();
        add_operation(paths_from(ops.drop_last()), o.0, o.1, o.2)
    }
}

pub open spec fn ops_view(v: Seq<(Method, String, ApiOperation)>) -> Seq<(Method, Seq<char>, ApiOperation)> {
    v.map_values(|o: (Method, String, ApiOperation)| (o.0, o.1@, o.2))
}

proof fn lemma_paths_key_index(ps: Seq<(String, PathItem)>, k: Seq<char>, i: int)
    ensures
        key_index(ps, k, i) == view_key_index(paths_view(ps), k, i),
    decreases ps.len() - i,
{
    if 0 <= i < ps.len() {
        lemma_paths_key_index(ps, k, i + 1);
    }
}

proof fn lemma_view_key_index_found<V>(m: Seq<(Seq<char>, V)>, k: Seq<char>, i: int)
    ensures
        view_key_index(m, k, i) matches Some(j) ==> i <= j < m.len() && m[j].0 == k,
    decreases m.len() - i,
{
    if 0 <= i < m.len() && m[i].0 != k {
        lemma_view_key_index_found(m, k, i + 1);
    }
}

proof fn lemma_view_key_index_absent<V>(m: Seq<(Seq<char>, V)>, k: Seq<char>, i: int)
    requires
        0 <= i,
        view_key_index(m, k, i) is None,
    ensures
        forall|j: int| i <= j < m.len() ==> #[trigger] m[j].0 != k,
    decreases m.len() - i,
{
    if i < m.len() {
        lemma_view_key_index_absent(m, k, i + 1);
    }
}

/// Whether paths are well formed: each starts with `/` and has the
/// parameters that its text names, and no path is there twice.
pub open spec fn paths_well_formed(ps: Seq<(Seq<char>, PathItemV)>) -> bool {
    &&& forall|i: int|
        0 <= i < ps.len() ==> "/"@.is_prefix_of(#[trigger] ps[i].0) && ps[i].1.parameters == path_params_from(
            ps[i].0,
            0,
        )
    &&& forall|i: int, j: int| 0 <= i < j < ps.len() ==> #[trigger] ps[i].0 != #[trigger] ps[j].0
}

/// Adding an operation keeps the paths well formed.
pub proof fn lemma_add_operation_well_formed(
    ps: Seq<(Seq<char>, PathItemV)>,
    m: Method,
    path: Seq<char>,
    op: ApiOperation,
)
    requires
        paths_well_formed(ps),
    ensures
        paths_well_formed(add_operation(ps, m, path, op)),
{
    if "/"@.is_prefix_of(path) {
        match view_key_index(ps, path, 0) {
            Some(j) => {
                lemma_view_key_index_found(ps, path, 0);
                let r = add_operation(ps, m, path, op);
                assert forall|i: int| 0 <= i < r.len() implies "/"@.is_prefix_of(#[trigger] r[i].0)
                    && r[i].1.parameters == path_params_from(r[i].0, 0) by {
                    if i != j {
                        assert(r[i] == ps[i]);
                    }
                }
                assert forall|a: int, b: int| 0 <= a < b < r.len() implies #[trigger] r[a].0 != #[trigger] r[b].0 by {
                    assert(r[a].0 == ps[a].0 && r[b].0 == ps[b].0);
                }
            },
            None => {
                lemma_view_key_index_absent(ps, path, 0);
                let r = add_operation(ps, m, path, op);
                assert forall|i: int| 0 <= i < r.len() implies "/"@.is_prefix_of(#[trigger] r[i].0)
                    && r[i].1.parameters == path_params_from(r[i].0, 0) by {
                    if i < ps.len() {
                        assert(r[i] == ps[i]);
                    }
                }
                assert forall|a: int, b: int| 0 <= a < b < r.len() implies #[trigger] r[a].0 != #[trigger] r[b].0 by {
                    if b < ps.len() {
                        assert(r[a] == ps[a] && r[b] == ps[b]);
                    } else {
                        assert(r[a] == ps[a]);
                        assert(r[b].0 == path);
                    }
                }
            },
        }
    }
}

/// Gathering operations by path gives well-formed paths: each starts with
/// `/` and has the parameters that its text names, and no path is there
/// twice.
pub proof fn lemma_paths_well_formed(ops: Seq<(Method, Seq<char>, ApiOperation)>)
    ensures
        paths_well_formed(paths_from(ops)),
    decreases ops.len(),
{
    if ops.len() > 0 {
        lemma_paths_well_formed(ops.drop_last());
        let o = ops.last();
        lemma_add_operation_well_formed(paths_from(ops.drop_last()), o.0, o.1, o.2);
    }
}

/// After an operation of method `m` on a path that starts with `/` is
/// added, the path is there and holds that operation for `m`.
pub proof fn lemma_add_then_find(
    ps: Seq<(Seq<char>, PathItemV)>,
    m: Method,
    path: Seq<char>,
    op: ApiOperation,
)
    requires
        "/"@.is_prefix_of(path),
    ensures
        ({
            let r = add_operation(ps, m, path, op);
            exists|j: int|
                0 <= j < r.len() && r[j].0 == path && #[trigger] r[j].1 == with_method(r[j].1, m, op)
        }),
{
    let r = add_operation(ps, m, path, op);
    match view_key_index(ps, path, 0) {
        Some(j) => {
            lemma_view_key_index_found(ps, path, 0);
            assert(r[j].1 == with_method(r[j].1, m, op));
        },
        None => {
            let j = ps.len() as int;
            assert(r[j].1 == with_method(r[j].1, m, op));
        },
    }
}

/// The operation that a path holds for method `m`: its `get`, `post`, `put`
/// or `delete`.
pub open spec fn slot(v: PathItemV, m: Method) -> Option<ApiOperation> {
    match m {
        Method::Get => v.get,
        Method::Post => v.post,
        Method::Put => v.put,
        Method::Delete => v.delete,
    }
}

/// Setting the operation of method `m` puts it in the slot of `m`, and
/// leaves the parameters of the path and the slots of the other three
/// methods as they were.
pub proof fn lemma_with_method_slots(v: PathItemV, m: Method, op: ApiOperation)
    ensures
        slot(with_method(v, m, op), m) == Some(op),
        forall|m2: Method| m2 != m ==> #[trigger] slot(with_method(v, m, op), m2) == slot(v, m2),
        with_method(v, m, op).parameters == v.parameters,
{
}

/// Adding an operation of method `m` on a path that starts with `/`: the
/// path then holds it for `m`; for the other methods it holds what it held
/// before, or nothing when the path is new, in which case its parameters
/// are those that its text names.
pub proof fn lemma_add_operation_slots(
    ps: Seq<(Seq<char>, PathItemV)>,
    m: Method,
    path: Seq<char>,
    op: ApiOperation,
)
    requires
        "/"@.is_prefix_of(path),
    ensures
        ({
            let r = add_operation(ps, m, path, op);
            match view_key_index(ps, path, 0) {
                Some(i) => {
                    &&& 0 <= i < r.len()
                    &&& r[i].0 == path
                    &&& slot(r[i].1, m) == Some(op)
                    &&& forall|m2: Method| m2 != m ==> #[trigger] slot(r[i].1, m2) == slot(ps[i].1, m2)
                    &&& r[i].1.parameters == ps[i].1.parameters
                },
                None => {
                    &&& r.len() == ps.len() + 1
                    &&& r[ps.len() as int].0 == path
                    &&& slot(r[ps.len() as int].1, m) == Some(op)
                    &&& forall|m2: Method| m2 != m ==> #[trigger] slot(r[ps.len() as int].1, m2) is None
                    &&& r[ps.len() as int].1.parameters == path_params_from(path, 0)
                },
            }
        }),
{
    match view_key_index(ps, path, 0) {
        Some(i) => {
            lemma_view_key_index_found(ps, path, 0);
            lemma_with_method_slots(ps[i].1, m, op);
        },
        None => {
            lemma_with_method_slots(new_path(path), m, op);
        },
    }
}

/// The path `item` with `op` as the operation of method `m`.
fn set_method(item: PathItem, m: Method, op: ApiOperation) -> (r: PathItem)
    ensures
        item_view(r) == with_method(item_view(item), m, op),
{
    let PathItem { parameters, get, post, put, delete } = item;
    match m {
        Method::Get => PathItem { parameters, get: Some(op), post, put, delete },
        Method::Post => PathItem { parameters, get, post: Some(op), put, delete },
        Method::Put => PathItem { parameters, get, post, put: Some(op), delete },
        Method::Delete => PathItem { parameters, get, post, put, delete: Some(op) },
    }
}

/// Adds the operation `op` of method `m` on `path` to the paths.
fn add_operation_to(ps: &mut Vec<(String, PathItem)>, m: Method, path: String, op: ApiOperation)
    ensures
        paths_view(final(ps)@) == add_operation(paths_view(old(ps)@), m, path@, op),
{
    proof {
        reveal_strlit("/");
    }
    if !starts_with(path.as_str(), "/") {
        return;
    }
    proof {
        lemma_paths_key_index(ps@, path@, 0);
        lemma_view_key_index_found(paths_view(ps@), path@, 0);
    }
    match key_position(ps, path.as_str()) {
        Some(j) => {
            let ghost before = ps@;
            let (k, item) = ps.remove(j);
            let item = set_method(item, m, op);
            ps.insert(j, (k, item));
            proof {
                assert(before[j as int].0@ == path@);
                assert(paths_view(ps@) =~= paths_view(before).update(
                    j as int,
                    (path@, with_method(paths_view(before)[j as int].1, m, op)),
                ));
            }
        },
        None => {
            let parameters = path_parameters(path.as_str());
            let item = PathItem { parameters, get: None, post: None, put: None, delete: None };
            let item = set_method(item, m, op);
            let ghost before = ps@;
            ps.push((path, item));
            proof {
                assert(paths_view(ps@) =~= paths_view(before).push((path@, with_method(new_path(path@), m, op))));
            }
        },
    }
}

/// Gathers operations (method, path, operation) by path, in order; an
/// operation replaces an earlier one of the same method on the same path.
pub fn paths_of(ops: Vec<(Method, String, ApiOperation)>) -> (r: Vec<(String, PathItem)>)
    ensures
        paths_view(r@) == paths_from(ops_view(ops@)),
{
    let ghost ov = ops_view(ops@);
    let mut r: Vec<(String, PathItem)> = Vec::new();
    proof {
        assert(paths_view(r@) =~= paths_from(ov.take(0)));
    }
    for o in it: ops
        invariant
            ov == ops_view(it.seq()),
            paths_view(r@) == paths_from(ov.take(it.index() as int)),
    {
        proof {
            assert(ov.take(it.index() + 1).drop_last() =~= ov.take(it.index() as int));
            assert(ov[it.index() as int] == (o.0, o.1@, o.2));
        }
        let (m, path, op) = o;
        add_operation_to(&mut r, m, path, op);
    }
    proof {
        assert(ov.take(ov.len() as int) =~= ov);
    }
    r
}

/// What reading the operation page `html` gives.
pub open spec fn page_operation(html: Seq<char>, r: Result<Operation, OperationParseError>) -> bool {
    match detail_page_of(html) {
        Err(e) => r matches Err(OperationParseError::DetailPageParseError(e2)) && e2 == e,
        Ok((_, h1, es)) => operation_outcome(h1, es, output_lead_of(html), r),
    }
}

/// Whether the operation page `html` can be read.
pub open spec fn page_reads(html: Seq<char>) -> bool {
    exists|o: Operation| #[trigger] page_operation(html, Ok(o))
}

/// Whether `x` (method, path, operation) is what the operation page `html`
/// gives at an API version with the mappings `tm` (media type to schema)
/// and `em` (element to schema).
pub open spec fn is_page_operation(
    html: Seq<char>,
    api_version: Seq<char>,
    tm: Seq<(Seq<char>, Seq<char>)>,
    em: Seq<(Seq<char>, Seq<char>)>,
    x: (Method, String, ApiOperation),
) -> bool {
    exists|o: Operation|
        #[trigger] page_operation(html, Ok(o)) && x.0 == o.method && x.1@ == o.path@
            && is_api_operation(o, api_version, tm, em, x.2)
}

/// Why the paths could not be gathered: an operation page, named, could not
/// be read.
#[derive(Debug)]
pub struct PathsError {
    pub file: String,
    pub error: OperationParseError,
}

/// Reads the operation pages (name, HTML) at an API version, with the
/// mappings from media types and from elements to schema names; stops at
/// the first page that cannot be read.
pub fn operations(
    pages: &Vec<(String, String)>,
    api_version: &str,
    type_mapping: &Vec<(String, String)>,
    element_mapping: &Vec<(String, String)>,
) -> (r: Result<Vec<(Method, String, ApiOperation)>, PathsError>)
    ensures
        match r {
            Ok(v) => v@.len() == pages@.len() && forall|k: int|
                0 <= k < v@.len() ==> is_page_operation(
                    pages@[k].1@,
                    api_version@,
                    pairs_view(type_mapping@),
                    pairs_view(element_mapping@),
                    #[trigger] v@[k],
                ),
            Err(e) => exists|k: int|
                0 <= k < pages@.len() && pages@[k].0@ == e.file@ && #[trigger] page_operation(
                    pages@[k].1@,
                    Err(e.error),
                ) && forall|j: int| 0 <= j < k ==> page_reads(#[trigger] pages@[j].1@),
        },
{
    let ghost tm = pairs_view(type_mapping@);
    let ghost em = pairs_view(element_mapping@);
    let mut v: Vec<(Method, String, ApiOperation)> = Vec::new();
    let mut k: usize = 0;
    while k < pages.len()
        invariant
            tm == pairs_view(type_mapping@),
            em == pairs_view(element_mapping@),
            k <= pages@.len(),
            v@.len() == k,
            forall|j: int|
                0 <= j < k ==> is_page_operation(pages@[j].1@, api_version@, tm, em, #[trigger] v@[j]),
        decreases pages@.len() - k,
    {
        let page = &pages[k];
        match Operation::try_from(page.1.as_str()) {
            Ok(o) => {
                let ghost og = o;
                assert(page_operation(page.1@, Ok(og)));
                let m = o.method;
                let path = o.path.clone();
                let api = o.to_openapi(api_version, type_mapping, element_mapping);
                let x = (m, path, api);
                assert(is_page_operation(page.1@, api_version@, tm, em, x));
                v.push(x);
            },
            Err(error) => {
                let e = PathsError { file: page.0.clone(), error };
                assert(page_operation(pages@[k as int].1@, Err(e.error)));
                assert forall|j: int| 0 <= j < k implies page_reads(#[trigger] pages@[j].1@) by {
                    assert(is_page_operation(pages@[j].1@, api_version@, tm, em, v@[j]));
                }
                return Err(e);
            },
        }
        k = k + 1;
    }
    Ok(v)
}

/// The paths of the API from the operation pages (name, HTML), at an API
/// version with the mappings from media types and from elements to schema
/// names: the operations of the pages gathered by path, in the order of the
/// pages; an error for the first page that cannot be read.
pub fn paths(
    pages: &Vec<(String, String)>,
    api_version: &str,
    type_mapping: &Vec<(String, String)>,
    element_mapping: &Vec<(String, String)>,
) -> (r: Result<Vec<(String, PathItem)>, PathsError>)
    ensures
        match r {
            Ok(ps) => exists|ops: Seq<(Method, String, ApiOperation)>|
                ops.len() == pages@.len() && (forall|k: int|
                    0 <= k < ops.len() ==> is_page_operation(
                        pages@[k].1@,
                        api_version@,
                        pairs_view(type_mapping@),
                        pairs_view(element_mapping@),
                        #[trigger] ops[k],
                    )) && #[trigger] paths_from(ops_view(ops)) == paths_view(ps@),
            Err(e) => exists|k: int|
                0 <= k < pages@.len() && pages@[k].0@ == e.file@ && #[trigger] page_operation(
                    pages@[k].1@,
                    Err(e.error),
                ) && forall|j: int| 0 <= j < k ==> page_reads(#[trigger] pages@[j].1@),
        },
{
    match operations(pages, api_version, type_mapping, element_mapping) {
        Ok(ops) => {
            let ghost ov = ops@;
            let ps = paths_of(ops);
            assert(paths_from(ops_view(ov)) == paths_view(ps@));
            Ok(ps)
        },
        Err(e) => Err(e),
    }
}

} // verus!
