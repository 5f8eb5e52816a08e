//! The project model: the operations of an OpenAPI document grouped into collections,
//! and the look-ups the client makes on it.
use vstd::prelude::*;
use crate::method::HttpMethod;
use crate::paths::{join_spec, join_path, extension_spec, extension_of, str_le, text_le, lemma_str_le_total, lemma_str_le_trans};

verus! {

/// Where a parameter of an operation is sent.
#[derive(Debug, Clone, Copy, PartialEq, Eq, Structural)]
pub enum ParamLocation {
    Query,
    Header,
    Path,
    Cookie,
}

/// The name under which a parameter location is shown.
pub open spec fn location_label(l: ParamLocation) -> Seq<char> {
    match l {
        ParamLocation::Query => seq!['q', 'u', 'e', 'r', 'y'],
        ParamLocation::Header => seq!['h', 'e', 'a', 'd', 'e', 'r'],
        ParamLocation::Path => seq!['p', 'a', 't', 'h'],
        ParamLocation::Cookie => seq!['c', 'o', 'o', 'k', 'i', 'e'],
    }
}

/// A parameter as an OpenAPI document declares it.
#[derive(Debug)]
pub struct ApiParameter {
    pub name: String,
    pub location: ParamLocation,
    pub description: Option<String>,
    pub required: bool,
}

/// An operation as an OpenAPI document declares it; a parameter that is a `$ref`
/// is held as `None`.
#[derive(Debug)]
pub struct ApiOperation {
    pub tags: Vec<String>,
    pub summary: Option<String>,
    pub operation_id: Option<String>,
    pub parameters: Vec<Option<ApiParameter>>,
}

/// The operations declared under one path of an OpenAPI document, with the
/// parameters shared by all of them.
#[derive(Debug)]
pub struct ApiPathItem {
    pub get: Option<ApiOperation>,
    pub post: Option<ApiOperation>,
    pub put: Option<ApiOperation>,
    pub patch: Option<ApiOperation>,
    pub delete: Option<ApiOperation>,
    pub parameters: Vec<Option<ApiParameter>>,
}

/// One entry of the `paths` of an OpenAPI document; an entry that is a `$ref` has no item.
#[derive(Debug)]
pub struct ApiPath {
    pub path: String,
    pub item: Option<ApiPathItem>,
}

/// The parts of an OpenAPI document that Rata reads: the server URLs and the paths, in
/// document order.
#[derive(Debug)]
pub struct ApiDocument {
    pub servers: Vec<String>,
    pub paths: Vec<ApiPath>,
}

/// A parameter of an operation.
#[derive(Debug, PartialEq, Eq)]
pub struct OperationParameter {
    pub name: String,
    pub location: String,
    pub description: Option<String>,
    pub required: bool,
}

/// An operation of the project: a method on a path template.
#[derive(Debug, PartialEq, Eq)]
pub struct Operation {
    pub method: HttpMethod,
    pub path: String,
    pub summary: String,
    pub tag: String,
    pub parameters: Vec<OperationParameter>,
}

/// The operations that share a tag.
#[derive(Debug)]
pub struct Collection {
    pub name: String,
    pub operations: Vec<Operation>,
}

/// The abstract value of an operation parameter.
pub struct ParameterView {
    pub name: Seq<char>,
    pub location: Seq<char>,
    pub description: Option<Seq<char>>,
    pub required: bool,
}

/// The abstract value of an operation.
pub struct OperationView {
    pub method: HttpMethod,
    pub path: Seq<char>,
    pub summary: Seq<char>,
    pub tag: Seq<char>,
    pub parameters: Seq<ParameterView>,
}

/// The abstract value of a collection.
pub struct CollectionView {
    pub name: Seq<char>,
    pub operations: Seq<OperationView>,
}

pub open spec fn opt_view(o: Option<String>) -> Option<Seq<char>> {
    match o {
        Some(s) => Some(s@),
        None => None,
    }
}

impl View for OperationParameter {
    type V = ParameterView;

    open spec fn view(&self) -> ParameterView {
        ParameterView {
            name: self.name@,
            location: self.location@,
            description: opt_view(self.description),
            required: self.required,
        }
    }
}

impl View for Operation {
    type V = OperationView;

    open spec fn view(&self) -> OperationView {
        OperationView {
            method: self.method,
            path: self.path@,
            summary: self.summary@,
            tag: self.tag@,
            parameters: self.parameters@.map_values(|p: OperationParameter| p@),
        }
    }
}

impl View for Collection {
    type V = CollectionView;

    open spec fn view(&self) -> CollectionView {
        CollectionView {
            name: self.name@,
            operations: ops_view(self.operations@),
        }
    }
}

pub open spec fn ops_view(v: Seq<Operation>) -> Seq<OperationView> {
    v.map_values(|o: Operation| o@)
}

pub open spec fn collections_view(v: Seq<Collection>) -> Seq<CollectionView> {
    v.map_values(|c: Collection| c@)
}

// ---------------------------------------------------------------------------
// From a document to its operations
// ---------------------------------------------------------------------------

/// The parameter that a declared parameter becomes.
pub open spec fn param_view(p: ApiParameter) -> ParameterView {
    ParameterView {
        name: p.name@,
        location: location_label(p.location),
        description: opt_view(p.description),
        required: p.required,
    }
}

/// The parameters that a list of declared parameters yields: references are skipped.
pub open spec fn declared_params(s: Seq<Option<ApiParameter>>) -> Seq<ParameterView>
    decreases s.len(),
{
    if s.len() == 0 {
        seq![]
    } else {
        let rest = declared_params(s.drop_last());
        match s.last() {
            Some(p) => rest.push(param_view(p)),
            None => rest,
        }
    }
}

/// The tag of an operation: its first tag, or "default".
pub open spec fn tag_spec(op: ApiOperation) -> Seq<char> {
    if op.tags@.len() > 0 {
        op.tags@[0]@
    } else {
        seq!['d', 'e', 'f', 'a', 'u', 'l', 't']
    }
}

/// The summary of an operation: its summary, else its operation id, else its path.
pub open spec fn summary_spec(op: ApiOperation, path: Seq<char>) -> Seq<char> {
    match op.summary {
        Some(s) => s@,
        None => match op.operation_id {
            Some(s) => s@,
            None => path,
        },
    }
}

/// The operation that a declared operation becomes.
pub open spec fn operation_spec(method: HttpMethod, path: Seq<char>, item: ApiPathItem, op: ApiOperation) -> OperationView {
    OperationView {
        method,
        path,
        summary: summary_spec(op, path),
        tag: tag_spec(op),
        parameters: declared_params(item.parameters@ + op.parameters@),
    }
}

/// The declared operation of a path item for a method.
pub open spec fn item_op(item: ApiPathItem, m: HttpMethod) -> Option<ApiOperation> {
    match m {
        HttpMethod::Get => item.get,
        HttpMethod::Post => item.post,
        HttpMethod::Put => item.put,
        HttpMethod::Patch => item.patch,
        HttpMethod::Delete => item.delete,
    }
}

/// The operations of a path item for the first `k` methods of GET, POST, PUT, PATCH, DELETE.
pub open spec fn item_operations_upto(path: Seq<char>, item: ApiPathItem, k: nat) -> Seq<OperationView>
    decreases k,
{
    if k == 0 {
        seq![]
    } else {
        let rest = item_operations_upto(path, item, (k - 1) as nat);
        let m = crate::method::methods_spec()[k - 1];
        match item_op(item, m) {
            Some(op) => rest.push(operation_spec(m, path, item, op)),
            None => rest,
        }
    }
}

/// The operations of one entry of `paths`, in method order; a `$ref` entry has none.
pub open spec fn path_operations(p: ApiPath) -> Seq<OperationView> {
    match p.item {
        Some(item) => item_operations_upto(p.path@, item, 5),
        None => seq![],
    }
}

/// The operations of a document, in document order and then method order.
pub open spec fn doc_operations(paths: Seq<ApiPath>) -> Seq<OperationView>
    decreases paths.len(),
{
    if paths.len() == 0 {
        seq![]
    } else {
        doc_operations(paths.drop_last()) + path_operations(paths.last())
    }
}

// ---------------------------------------------------------------------------
// Grouping by tag
// ---------------------------------------------------------------------------

/// The index of the first collection named `tag`, or `cs.len()` when there is none.
pub open spec fn group_index(cs: Seq<CollectionView>, tag: Seq<char>) -> nat
    decreases cs.len(),
{
    if cs.len() == 0 {
        0
    } else if cs[0].name == tag {
        0
    } else {
        1 + group_index(cs.drop_first(), tag)
    }
}

/// Adds an operation to the collection of its tag, opening a new collection at the end
/// when there is none yet.
pub open spec fn add_to_group(cs: Seq<CollectionView>, op: OperationView) -> Seq<CollectionView> {
    let i = group_index(cs, op.tag);
    if i < cs.len() {
        cs.update(i as int, CollectionView { name: cs[i as int].name, operations: cs[i as int].operations.push(op) })
    } else {
        cs.push(CollectionView { name: op.tag, operations: seq![op] })
    }
}

/// The collections of a list of operations: one per tag, in order of first appearance,
/// each holding the operations of its tag in order.
pub open spec fn group_by_tag(ops: Seq<OperationView>) -> Seq<CollectionView>
    decreases ops.len(),
{
    if ops.len() == 0 {
        seq![]
    } else {
        add_to_group(group_by_tag(ops.drop_last()), ops.last())
    }
}


/// The operations of a list that carry a tag, in order.
pub open spec fn with_tag(ops: Seq<OperationView>, tag: Seq<char>) -> Seq<OperationView>
    decreases ops.len(),
{
    if ops.len() == 0 {
        seq![]
    } else if ops.last().tag == tag {
        with_tag(ops.drop_last(), tag).push(ops.last())
    } else {
        with_tag(ops.drop_last(), tag)
    }
}

proof fn lemma_group_index_bound(cs: Seq<CollectionView>, tag: Seq<char>)
    ensures
        group_index(cs, tag) <= cs.len(),
        group_index(cs, tag) < cs.len() ==> cs[group_index(cs, tag) as int].name == tag,
        forall|k: int| 0 <= k < group_index(cs, tag) ==> cs[k].name != tag,
    decreases cs.len(),
{
    if cs.len() > 0 && cs[0].name != tag {
        lemma_group_index_bound(cs.drop_first(), tag);
        assert forall|k: int| 0 <= k < group_index(cs, tag) implies cs[k].name != tag by {
            if k > 0 {
                assert(cs[k] == cs.drop_first()[k - 1]);
            }
        }
    }
}

proof fn lemma_with_tag_absent(ops: Seq<OperationView>, tag: Seq<char>)
    requires
        forall|k: int| 0 <= k < ops.len() ==> (#[trigger] ops[k]).tag != tag,
    ensures
        with_tag(ops, tag) == Seq::<OperationView>::empty(),
    decreases ops.len(),
{
    if ops.len() > 0 {
        lemma_with_tag_absent(ops.drop_last(), tag);
        assert(ops[ops.len() - 1].tag != tag);
    }
}

proof fn lemma_declared_params_append(a: Seq<Option<ApiParameter>>, b: Seq<Option<ApiParameter>>)
    ensures
        declared_params(a + b) == declared_params(a) + declared_params(b),
    decreases b.len(),
{
    if b.len() == 0 {
        assert(a + b =~= a);
        assert(declared_params(a) + declared_params(b) =~= declared_params(a));
    } else {
        assert((a + b).drop_last() =~= a + b.drop_last());
        assert((a + b).last() == b.last());
        lemma_declared_params_append(a, b.drop_last());
        match b.last() {
            Some(q) => {
                assert(declared_params(a) + declared_params(b.drop_last()).push(param_view(q))
                    =~= (declared_params(a) + declared_params(b.drop_last())).push(param_view(q)));
            },
            None => {},
        }
    }
}

proof fn lemma_declared_params_member(a: Seq<Option<ApiParameter>>, j: int)
    requires
        0 <= j < a.len(),
        a[j] is Some,
    ensures
        declared_params(a).contains(param_view(a[j]->0)),
    decreases a.len(),
{
    if j < a.len() - 1 {
        assert(a.drop_last()[j] == a[j]);
        lemma_declared_params_member(a.drop_last(), j);
        let m = choose|m: int| 0 <= m < declared_params(a.drop_last()).len()
            && declared_params(a.drop_last())[m] == param_view(a[j]->0);
        match a.last() {
            Some(q) => { assert(declared_params(a)[m] == declared_params(a.drop_last())[m]); },
            None => {},
        }
    } else {
        assert(a.last() == a[j]);
        assert(declared_params(a).last() == param_view(a[j]->0));
    }
}

proof fn lemma_item_operations(path: Seq<char>, item: ApiPathItem, k: nat)
    requires
        k <= 5,
    ensures
        forall|n: int| 0 <= n < item_operations_upto(path, item, k).len() ==>
            (#[trigger] item_operations_upto(path, item, k)[n]).parameters
                == declared_params(item.parameters@) + declared_params(item_op(item, item_operations_upto(path, item, k)[n].method)->0.parameters@)
            && item_op(item, item_operations_upto(path, item, k)[n].method) is Some,
    decreases k,
{
    if k > 0 {
        lemma_item_operations(path, item, (k - 1) as nat);
        let rest = item_operations_upto(path, item, (k - 1) as nat);
        let m = crate::method::methods_spec()[k - 1];
        match item_op(item, m) {
            Some(op) => {
                lemma_declared_params_append(item.parameters@, op.parameters@);
                let all = item_operations_upto(path, item, k);
                assert forall|n: int| 0 <= n < all.len() implies
                    (#[trigger] all[n]).parameters == declared_params(item.parameters@) + declared_params(item_op(item, all[n].method)->0.parameters@)
                    && item_op(item, all[n].method) is Some by {
                    if n < rest.len() {
                        assert(all[n] == rest[n]);
                    }
                }
            },
            None => {},
        }
    }
}

/// The parameters of each operation of a path are the parameters declared on the path
/// itself (references skipped) followed by those the operation declares; in particular
/// every parameter declared on the path is offered by every operation of that path.
pub proof fn law_path_parameters_in_every_operation(p: ApiPath)
    ensures
        forall|n: int| 0 <= n < path_operations(p).len() ==>
            (#[trigger] path_operations(p)[n]).parameters
                == declared_params(p.item->0.parameters@) + declared_params(item_op(p.item->0, path_operations(p)[n].method)->0.parameters@),
        forall|n: int, j: int| 0 <= n < path_operations(p).len() && 0 <= j < p.item->0.parameters@.len()
            && (#[trigger] p.item->0.parameters@[j]) is Some ==>
            (#[trigger] path_operations(p)[n]).parameters.contains(param_view(p.item->0.parameters@[j]->0)),
{
    match p.item {
        Some(item) => {
            lemma_item_operations(p.path@, item, 5);
            assert forall|n: int, j: int| 0 <= n < path_operations(p).len() && 0 <= j < item.parameters@.len()
                && (#[trigger] item.parameters@[j]) is Some implies
                (#[trigger] path_operations(p)[n]).parameters.contains(param_view(item.parameters@[j]->0)) by {
                lemma_declared_params_member(item.parameters@, j);
                let d = declared_params(item.parameters@);
                let e = declared_params(item_op(item, path_operations(p)[n].method)->0.parameters@);
                let m = choose|m: int| 0 <= m < d.len() && d[m] == param_view(item.parameters@[j]->0);
                assert((d + e)[m] == d[m]);
            }
        },
        None => {},
    }
}

/// Grouping partitions the operations by tag: the collections have distinct names,
/// each collection holds exactly the operations of its tag, in their order, and every
/// operation's tag names a collection.
pub proof fn law_collections_partition_operations(ops: Seq<OperationView>)
    ensures
        forall|i: int, j: int|
            0 <= i < j < group_by_tag(ops).len() ==> group_by_tag(ops)[i].name != group_by_tag(ops)[j].name,
        forall|i: int|
            0 <= i < group_by_tag(ops).len() ==> (#[trigger] group_by_tag(ops)[i]).operations
                == with_tag(ops, group_by_tag(ops)[i].name),
        forall|k: int|
            0 <= k < ops.len() ==> group_index(group_by_tag(ops), (#[trigger] ops[k]).tag) < group_by_tag(ops).len(),
    decreases ops.len(),
{
    if ops.len() > 0 {
        let prev = ops.drop_last();
        let op = ops.last();
        let cs0 = group_by_tag(prev);
        let cs = group_by_tag(ops);
        law_collections_partition_operations(prev);
        lemma_group_index_bound(cs0, op.tag);
        let g = group_index(cs0, op.tag);
        assert(cs == add_to_group(cs0, op));
        if g < cs0.len() {
            assert(cs.len() == cs0.len());
            assert forall|i: int| 0 <= i < cs.len() implies cs[i].name == cs0[i].name by {}
            assert forall|i: int| 0 <= i < cs.len() implies (#[trigger] cs[i]).operations == with_tag(ops, cs[i].name) by {
                assert(cs0[i].operations == with_tag(prev, cs0[i].name));
                if i == g {
                } else {
                    assert(cs0[i].name != cs0[g as int].name);
                }
            }
            assert forall|k: int| 0 <= k < ops.len() implies group_index(cs, (#[trigger] ops[k]).tag) < cs.len() by {
                lemma_group_index_bound(cs, ops[k].tag);
                lemma_group_index_bound(cs0, ops[k].tag);
                if k < ops.len() - 1 {
                    assert(ops[k] == prev[k]);
                    let h = group_index(cs0, prev[k].tag);
                    assert(cs[h as int].name == ops[k].tag);
                } else {
                    assert(cs[g as int].name == ops[k].tag);
                }
            }
        } else {
            assert(forall|i: int| 0 <= i < cs0.len() ==> cs[i] == cs0[i]);
            assert forall|k: int| 0 <= k < prev.len() implies (#[trigger] prev[k]).tag != op.tag by {
                lemma_group_index_bound(cs0, prev[k].tag);
            }
            lemma_with_tag_absent(prev, op.tag);
            assert forall|i: int| 0 <= i < cs.len() implies (#[trigger] cs[i]).operations == with_tag(ops, cs[i].name) by {
                if i < cs0.len() {
                    assert(cs0[i].operations == with_tag(prev, cs0[i].name));
                } else {
                    assert(with_tag(ops, op.tag) =~= seq![op]);
                }
            }
            assert forall|k: int| 0 <= k < ops.len() implies group_index(cs, (#[trigger] ops[k]).tag) < cs.len() by {
                lemma_group_index_bound(cs, ops[k].tag);
                if k < ops.len() - 1 {
                    assert(ops[k] == prev[k]);
                    lemma_group_index_bound(cs0, prev[k].tag);
                    let h = group_index(cs0, prev[k].tag);
                    assert(cs[h as int].name == ops[k].tag);
                } else {
                    assert(cs[cs0.len() as int].name == ops[k].tag);
                }
            }
        }
    }
}

proof fn lemma_group_index_at(cs: Seq<CollectionView>, tag: Seq<char>, i: int)
    requires
        0 <= i <= cs.len(),
        forall|k: int| 0 <= k < i ==> cs[k].name != tag,
        i == cs.len() || cs[i].name == tag,
    ensures
        group_index(cs, tag) == i,
    decreases i,
{
    if i > 0 {
        lemma_group_index_at(cs.drop_first(), tag, i - 1);
    }
}

fn clone_opt_string(o: &Option<String>) -> (r: Option<String>)
    ensures
        opt_view(r) == opt_view(*o),
{
    match o {
        Some(s) => Some(s.clone()),
        None => None,
    }
}

fn location_name(l: ParamLocation) -> (r: String)
    ensures
        r@ == location_label(l),
{
    proof {
        reveal_strlit("query");
        reveal_strlit("header");
        reveal_strlit("path");
        reveal_strlit("cookie");
    }
    match l {
        ParamLocation::Query => String::from_str("query"),
        ParamLocation::Header => String::from_str("header"),
        ParamLocation::Path => String::from_str("path"),
        ParamLocation::Cookie => String::from_str("cookie"),
    }
}

fn push_declared_params(out: &mut Vec<OperationParameter>, s: &Vec<Option<ApiParameter>>, Ghost(prefix): Ghost<Seq<Option<ApiParameter>>>)
    requires
        old(out)@.map_values(|p: OperationParameter| p@) == declared_params(prefix),
    ensures
        final(out)@.map_values(|p: OperationParameter| p@) == declared_params(prefix + s@),
{
    let mut i: usize = 0;
    assert(prefix + s@.take(0) == prefix);
    while i < s.len()
        invariant
            i <= s.len(),
            out@.map_values(|p: OperationParameter| p@) == declared_params(prefix + s@.take(i as int)),
        decreases s.len() - i,
    {
        let ghost before = out@.map_values(|p: OperationParameter| p@);
        assert((prefix + s@.take(i + 1)).drop_last() == prefix + s@.take(i as int));
        assert((prefix + s@.take(i + 1)).last() == s@[i as int]);
        match &s[i] {
            Some(p) => {
                out.push(OperationParameter {
                    name: p.name.clone(),
                    location: location_name(p.location),
                    description: clone_opt_string(&p.description),
                    required: p.required,
                });
                assert(out@.map_values(|p: OperationParameter| p@) =~= before.push(param_view(*p)));
            },
            None => {},
        }
        i += 1;
    }
    assert(s@.take(s.len() as int) == s@);
}

fn make_operation(method: HttpMethod, path: &String, item: &ApiPathItem, op: &ApiOperation) -> (r: Operation)
    ensures
        r@ == operation_spec(method, path@, *item, *op),
{
    let tag = if op.tags.len() > 0 {
        op.tags[0].clone()
    } else {
        proof {
            reveal_strlit("default");
            assert("default"@ =~= seq!['d', 'e', 'f', 'a', 'u', 'l', 't']);
        }
        String::from_str("default")
    };
    let summary = match &op.summary {
        Some(s) => s.clone(),
        None => match &op.operation_id {
            Some(s) => s.clone(),
            None => path.clone(),
        },
    };
    let mut parameters: Vec<OperationParameter> = Vec::new();
    assert(parameters@.map_values(|p: OperationParameter| p@) =~= declared_params(Seq::<Option<ApiParameter>>::empty()));
    push_declared_params(&mut parameters, &item.parameters, Ghost(Seq::empty()));
    assert(Seq::<Option<ApiParameter>>::empty() + item.parameters@ == item.parameters@);
    push_declared_params(&mut parameters, &op.parameters, Ghost(item.parameters@));
    let r = Operation { method, path: path.clone(), summary, tag, parameters };
    assert(r@.parameters == declared_params(item.parameters@ + op.parameters@));
    r
}

/// Adds an operation to the collection of its tag (see `add_to_group`).
fn add_operation(cs: &mut Vec<Collection>, op: Operation)
    ensures
        collections_view(final(cs)@) == add_to_group(collections_view(old(cs)@), op@),
{
    let ghost cv = collections_view(cs@);
    let mut i: usize = 0;
    while i < cs.len() && !(cs[i].name == op.tag)
        invariant
            cv == collections_view(cs@),
            i <= cs.len(),
            forall|k: int| 0 <= k < i ==> cv[k].name != op@.tag,
        decreases cs.len() - i,
    {
        i += 1;
    }
    proof {
        lemma_group_index_at(cv, op@.tag, i as int);
    }
    if i < cs.len() {
        let mut c = cs.remove(i);
        let ghost old_ops = ops_view(c.operations@);
        c.operations.push(op);
        assert(ops_view(c.operations@) =~= old_ops.push(op@));
        cs.insert(i, c);
        assert(collections_view(cs@) =~= cv.update(i as int, CollectionView { name: cv[i as int].name, operations: cv[i as int].operations.push(op@) }));
    } else {
        let name = op.tag.clone();
        let mut ops: Vec<Operation> = Vec::new();
        ops.push(op);
        assert(ops_view(ops@) =~= seq![op@]);
        cs.push(Collection { name, operations: ops });
        assert(collections_view(cs@) =~= cv.push(CollectionView { name: op@.tag, operations: seq![op@] }));
    }
}

fn item_op_exec(item: &ApiPathItem, m: HttpMethod) -> (r: &Option<ApiOperation>)
    ensures
        *r == item_op(*item, m),
{
    match m {
        HttpMethod::Get => &item.get,
        HttpMethod::Post => &item.post,
        HttpMethod::Put => &item.put,
        HttpMethod::Patch => &item.patch,
        HttpMethod::Delete => &item.delete,
    }
}

/// Groups the operations of a document into collections, one per tag, in the order in
/// which the tags first appear; each collection holds the operations of its tag in
/// document order, the methods of one path in the order GET, POST, PUT, PATCH, DELETE.
pub fn collect_operations(doc: &ApiDocument) -> (r: Vec<Collection>)
    ensures
        collections_view(r@) == group_by_tag(doc_operations(doc.paths@)),
{
    let mut cs: Vec<Collection> = Vec::new();
    let methods = crate::method::all_methods();
    let mut i: usize = 0;
    assert(collections_view(cs@) =~= group_by_tag(doc_operations(doc.paths@.take(0))));
    while i < doc.paths.len()
        invariant
            i <= doc.paths.len(),
            methods@ == crate::method::methods_spec(),
            collections_view(cs@) == group_by_tag(doc_operations(doc.paths@.take(i as int))),
        decreases doc.paths.len() - i,
    {
        let entry = &doc.paths[i];
        let ghost done = doc_operations(doc.paths@.take(i as int));
        assert(doc.paths@.take(i + 1).drop_last() == doc.paths@.take(i as int));
        match &entry.item {
            Some(item) => {
                let mut k: usize = 0;
                while k < 5
                    invariant
                        k <= 5,
                        methods@ == crate::method::methods_spec(),
                        collections_view(cs@) == group_by_tag(done + item_operations_upto(entry.path@, *item, k as nat)),
                    decreases 5 - k,
                {
                    let m = methods[k];
                    let ghost sofar = done + item_operations_upto(entry.path@, *item, k as nat);
                    match item_op_exec(item, m) {
                        Some(op) => {
                            let o = make_operation(m, &entry.path, item, op);
                            add_operation(&mut cs, o);
                            assert(done + item_operations_upto(entry.path@, *item, (k + 1) as nat) =~= sofar.push(o@));
                            assert(sofar.push(o@).drop_last() =~= sofar);
                        },
                        None => {
                            assert(done + item_operations_upto(entry.path@, *item, (k + 1) as nat) =~= sofar);
                        },
                    }
                    k += 1;
                }
                assert(doc_operations(doc.paths@.take(i + 1)) == done + path_operations(*entry));
            },
            None => {
                assert(doc_operations(doc.paths@.take(i + 1)) =~= done);
            },
        }
        i += 1;
    }
    assert(doc.paths@.take(doc.paths.len() as int) == doc.paths@);
    cs
}


// ---------------------------------------------------------------------------
// Copies
// ---------------------------------------------------------------------------

impl OperationParameter {
    /// A copy of the parameter.
    pub fn copy(&self) -> (r: OperationParameter)
        ensures
            r@ == self@,
    {
        OperationParameter {
            name: self.name.clone(),
            location: self.location.clone(),
            description: clone_opt_string(&self.description),
            required: self.required,
        }
    }
}

impl Operation {
    /// A copy of the operation.
    pub fn copy(&self) -> (r: Operation)
        ensures
            r@ == self@,
    {
        let mut ps: Vec<OperationParameter> = Vec::new();
        let mut i: usize = 0;
        while i < self.parameters.len()
            invariant
                i <= self.parameters.len(),
                ps@.map_values(|p: OperationParameter| p@) == self.parameters@.take(i as int).map_values(|p: OperationParameter| p@),
            decreases self.parameters.len() - i,
        {
            let q = self.parameters[i].copy();
            let ghost before = ps@.map_values(|p: OperationParameter| p@);
            ps.push(q);
            assert(self.parameters@.take(i + 1) == self.parameters@.take(i as int).push(self.parameters@[i as int]));
            assert(ps@.map_values(|p: OperationParameter| p@) =~= before.push(q@));
            assert(ps@.map_values(|p: OperationParameter| p@) =~= self.parameters@.take(i + 1).map_values(|p: OperationParameter| p@));
            i += 1;
        }
        assert(self.parameters@.take(self.parameters.len() as int) == self.parameters@);
        Operation {
            method: self.method,
            path: self.path.clone(),
            summary: self.summary.clone(),
            tag: self.tag.clone(),
            parameters: ps,
        }
    }
}

// ---------------------------------------------------------------------------
// The project
// ---------------------------------------------------------------------------

/// An operation that a request URL matched, with the values its path placeholders took.
#[derive(Debug)]
pub struct MatchedOperation {
    pub operation: Operation,
    pub path_params: Vec<(String, String)>,
}

/// An example request stored for an operation.
#[derive(Debug, Clone)]
pub struct ExampleFile {
    pub name: String,
    pub path: String,
}

/// The abstract value of an example file: its name and its path.
pub open spec fn example_view(e: ExampleFile) -> (Seq<char>, Seq<char>) {
    (e.name@, e.path@)
}

pub open spec fn examples_view(v: Seq<ExampleFile>) -> Seq<(Seq<char>, Seq<char>)> {
    v.map_values(|e: ExampleFile| example_view(e))
}

/// A Rata project: the `.rata` directory, its OpenAPI document, the document's first
/// server and its operations grouped into collections.
#[derive(Debug)]
pub struct RataProject {
    root: String,
    openapi_path: String,
    server_url: Option<String>,
    collections: Vec<Collection>,
}

/// All operations of a list of collections, collection after collection.
pub open spec fn flatten(cs: Seq<CollectionView>) -> Seq<OperationView>
    decreases cs.len(),
{
    if cs.len() == 0 {
        seq![]
    } else {
        flatten(cs.drop_last()) + cs.last().operations
    }
}

/// The first operation of `ops` with the given method whose template matches the path,
/// with the captured parameters.
pub open spec fn first_match(ops: Seq<OperationView>, method: HttpMethod, path: Seq<char>)
    -> Option<(OperationView, Seq<(Seq<char>, Seq<char>)>)>
    decreases ops.len(),
{
    if ops.len() == 0 {
        None
    } else if ops[0].method == method && crate::path_match::match_template_spec(ops[0].path, path) is Some {
        Some((ops[0], crate::path_match::match_template_spec(ops[0].path, path)->0))
    } else {
        first_match(ops.drop_first(), method, path)
    }
}

/// The path of a URL as the `url` crate parses it, or nothing when the text is not an
/// absolute URL.
pub uninterp spec fn spec_url_path(url: Seq<char>) -> Option<Seq<char>>;

/// The `url` crate's parse error (`url::ParseError`), carried through unopened.
#[verifier::external_type_specification]
#[verifier::external_body]
pub struct ExUrlParseError(url::ParseError);

/// Parses an absolute URL with `url::Url::parse` and gives its path (`Url::path`).
#[verifier::external_body]
fn parse_url_path(input: &str) -> (r: Result<String, url::ParseError>)
    ensures
        match r {
            Ok(p) => spec_url_path(input@) == Some(p@),
            Err(_) => spec_url_path(input@) is None,
        },
{
    url::Url::parse(input).map(|u| u.path().to_string())
}

/// The message of a URL parse error (its `Display` text).
#[verifier::external_body]
fn url_error_message(e: &url::ParseError) -> String {
    e.to_string()
}

/// A URL that could not be parsed.
#[derive(Debug, Clone, PartialEq, Eq)]
pub struct InvalidUrl {
    pub message: String,
}

/// What an example directory's entry is: its file name and its full path.
pub struct DirEntry {
    pub name: String,
    pub path: String,
}

/// Whether a file name has the extension `yaml` or `yml`.
pub open spec fn is_yaml_name(name: Seq<char>) -> bool {
    extension_spec(name) == Some(seq!['y', 'a', 'm', 'l']) || extension_spec(name) == Some(seq!['y', 'm', 'l'])
}

/// The YAML entries of a list, in order.
pub open spec fn yaml_entries(es: Seq<DirEntry>) -> Seq<(Seq<char>, Seq<char>)>
    decreases es.len(),
{
    if es.len() == 0 {
        seq![]
    } else if is_yaml_name(es.last().name@) {
        yaml_entries(es.drop_last()).push((es.last().name@, es.last().path@))
    } else {
        yaml_entries(es.drop_last())
    }
}

/// Orders examples by name.
pub open spec fn by_name(a: (Seq<char>, Seq<char>), b: (Seq<char>, Seq<char>)) -> bool {
    str_le(a.0, b.0)
}

/// Examples ordered by name.
pub open spec fn sorted_by_name(s: Seq<(Seq<char>, Seq<char>)>) -> bool {
    forall|a: int, b: int| 0 <= a < b < s.len() ==> by_name(#[trigger] s[a], #[trigger] s[b])
}

fn is_yaml_file(name: &str) -> (r: bool)
    ensures
        r == is_yaml_name(name@),
{
    proof {
        reveal_strlit("yaml");
        reveal_strlit("yml");
        assert("yaml"@ =~= seq!['y', 'a', 'm', 'l']);
        assert("yml"@ =~= seq!['y', 'm', 'l']);
    }
    match extension_of(name) {
        Some(e) => {
            let a = String::from_str("yaml");
            let b = String::from_str("yml");
            e == a || e == b
        },
        None => false,
    }
}

/// The examples of a directory listing: the entries whose file name has the extension
/// `yaml` or `yml`, ordered by name.
pub fn examples_from_entries(entries: &Vec<DirEntry>) -> (r: Vec<ExampleFile>)
    ensures
        examples_view(r@).to_multiset() == yaml_entries(entries@).to_multiset(),
        sorted_by_name(examples_view(r@)),
{
    broadcast use vstd::seq_lib::to_multiset_insert;
    let mut out: Vec<ExampleFile> = Vec::new();
    let mut i: usize = 0;
    assert(examples_view(out@) =~= Seq::<(Seq<char>, Seq<char>)>::empty());
    while i < entries.len()
        invariant
            i <= entries.len(),
            examples_view(out@).to_multiset() == yaml_entries(entries@.take(i as int)).to_multiset(),
            sorted_by_name(examples_view(out@)),
        decreases entries.len() - i,
    {
        assert(entries@.take(i + 1).drop_last() == entries@.take(i as int));
        let e = &entries[i];
        if is_yaml_file(e.name.as_str()) {
            let ghost ov = examples_view(out@);
            let mut p: usize = 0;
            while p < out.len() && text_le(out[p].name.as_str(), e.name.as_str())
                invariant
                    p <= out.len(),
                    ov == examples_view(out@),
                    forall|k: int| 0 <= k < p ==> str_le(ov[k].0, e.name@),
                decreases out.len() - p,
            {
                p += 1;
            }
            let ex = ExampleFile { name: e.name.clone(), path: e.path.clone() };
            out.insert(p, ex);
            proof {
                let nv = examples_view(out@);
                let x = (e.name@, e.path@);
                assert(nv =~= ov.insert(p as int, x));
                vstd::seq_lib::to_multiset_insert(ov, p as int, x);
                assert(nv.to_multiset() == ov.to_multiset().insert(x));
                let ye = yaml_entries(entries@.take(i as int));
                vstd::seq_lib::to_multiset_insert(ye, ye.len() as int, x);
                assert(yaml_entries(entries@.take(i + 1)) == yaml_entries(entries@.take(i as int)).push(x));
                assert(yaml_entries(entries@.take(i as int)).push(x).to_multiset()
                    == yaml_entries(entries@.take(i as int)).insert(yaml_entries(entries@.take(i as int)).len() as int, x).to_multiset()) by {
                    assert(yaml_entries(entries@.take(i as int)).push(x) =~= yaml_entries(entries@.take(i as int)).insert(yaml_entries(entries@.take(i as int)).len() as int, x));
                }
                assert(yaml_entries(entries@.take(i + 1)).to_multiset() == yaml_entries(entries@.take(i as int)).to_multiset().insert(x));
                if p < ov.len() {
                    lemma_str_le_total(ov[p as int].0, x.0);
                }
                assert forall|a: int, b: int| 0 <= a < b < nv.len() implies by_name(nv[a], nv[b]) by {
                    if a < p && b < p {
                        assert(by_name(ov[a], ov[b]));
                    } else if a < p && b == p {
                    } else if a < p {
                        assert(by_name(ov[a], ov[b - 1]));
                    } else if a == p {
                        if b - 1 > p {
                            assert(by_name(ov[p as int], ov[b - 1]));
                            lemma_str_le_trans(x.0, ov[p as int].0, ov[b - 1].0);
                        }
                    } else {
                        assert(by_name(ov[a - 1], ov[b - 1]));
                    }
                }
            }
        } else {
            assert(yaml_entries(entries@.take(i + 1)) == yaml_entries(entries@.take(i as int)));
        }
        i += 1;
    }
    assert(entries@.take(entries.len() as int) == entries@);
    out
}

impl RataProject {
    /// The project of a `.rata` directory whose OpenAPI document, read from
    /// `openapi_path`, is `doc`: the document's first server and its collections.
    pub fn from_document(root: String, openapi_path: String, doc: &ApiDocument) -> (r: RataProject)
        ensures
            r.root_spec() == root@,
            r.openapi_path_spec() == openapi_path@,
            r.server_url_spec() == (if doc.servers@.len() > 0 { Some(doc.servers@[0]@) } else { None::<Seq<char>> }),
            r.collections_spec() == group_by_tag(doc_operations(doc.paths@)),
    {
        let server_url = if doc.servers.len() > 0 {
            Some(doc.servers[0].clone())
        } else {
            None
        };
        RataProject { root, openapi_path, server_url, collections: collect_operations(doc) }
    }

    pub closed spec fn root_spec(&self) -> Seq<char> {
        self.root@
    }

    pub closed spec fn openapi_path_spec(&self) -> Seq<char> {
        self.openapi_path@
    }

    pub closed spec fn server_url_spec(&self) -> Option<Seq<char>> {
        opt_view(self.server_url)
    }

    pub closed spec fn collections_spec(&self) -> Seq<CollectionView> {
        collections_view(self.collections@)
    }

    /// The path of the project's OpenAPI document.
    pub fn openapi_path(&self) -> (r: &str)
        ensures
            r@ == self.openapi_path_spec(),
    {
        self.openapi_path.as_str()
    }

    /// The project's collections.
    pub fn collections(&self) -> (r: &[Collection])
        ensures
            collections_view(r@) == self.collections_spec(),
    {
        self.collections.as_slice()
    }

    /// The URL of the document's first server, if it names one.
    pub fn server_url(&self) -> (r: Option<&str>)
        ensures
            match r {
                Some(s) => self.server_url_spec() == Some(s@),
                None => self.server_url_spec() is None,
            },
    {
        match &self.server_url {
            Some(s) => Some(s.as_str()),
            None => None,
        }
    }

    /// The directory that holds the examples of an operation:
    /// `<root>/examples/<path without leading slashes>/<method directory>`.
    pub fn example_dir(&self, operation: &Operation) -> (r: String)
        ensures
            r@ == join_spec(join_spec(join_spec(self.root_spec(), "examples"@), trim_leading_slashes(operation.path@)), crate::method::directory_spec(operation.method)),
    {
        let a = join_path(self.root.as_str(), "examples");
        let trimmed = trim_leading_slashes_exec(operation.path.as_str());
        let b = join_path(a.as_str(), trimmed.as_str());
        join_path(b.as_str(), operation.method.directory())
    }

    /// The other directory an operation's examples may lie in, straight under the root:
    /// `<root>/<path without leading slashes>/<method directory>`.
    pub fn direct_example_dir(&self, operation: &Operation) -> (r: String)
        ensures
            r@ == join_spec(join_spec(self.root_spec(), trim_leading_slashes(operation.path@)), crate::method::directory_spec(operation.method)),
    {
        let trimmed = trim_leading_slashes_exec(operation.path.as_str());
        let b = join_path(self.root.as_str(), trimmed.as_str());
        join_path(b.as_str(), operation.method.directory())
    }

    /// The directory whose examples are listed for an operation, given whether the
    /// `examples` directory of the operation (see `example_dir`) is a directory: that one
    /// when it is, else the one straight under the root (see `direct_example_dir`).
    pub fn listed_example_dir(&self, operation: &Operation, examples_dir_exists: bool) -> (r: String)
        ensures
            r@ == (if examples_dir_exists {
                join_spec(join_spec(join_spec(self.root_spec(), "examples"@), trim_leading_slashes(operation.path@)), crate::method::directory_spec(operation.method))
            } else {
                join_spec(join_spec(self.root_spec(), trim_leading_slashes(operation.path@)), crate::method::directory_spec(operation.method))
            }),
    {
        if examples_dir_exists {
            self.example_dir(operation)
        } else {
            self.direct_example_dir(operation)
        }
    }

    /// The first operation, collection after collection, with the given method whose path
    /// template matches `path`, with the values its placeholders take.
    pub fn match_path(&self, method: HttpMethod, path: &str) -> (r: Option<MatchedOperation>)
        ensures
            match r {
                Some(m) => first_match(flatten(self.collections_spec()), method, path@)
                    == Some((m.operation@, crate::path_match::pairs_view(m.path_params@))),
                None => first_match(flatten(self.collections_spec()), method, path@) is None,
            },
    {
        let ghost cs = self.collections_spec();
        let mut i: usize = 0;
        proof {
            lemma_first_match_split(cs, 0, method, path@);
        }
        while i < self.collections.len()
            invariant
                cs == self.collections_spec(),
                i <= self.collections.len(),
                first_match(flatten(cs), method, path@) == first_match(flatten_from(cs, i as int), method, path@),
            decreases self.collections.len() - i,
        {
            let c = &self.collections[i];
            let mut j: usize = 0;
            proof {
                lemma_flatten_from_step(cs, i as int);
            }
            while j < c.operations.len()
                invariant
                    cs == self.collections_spec(),
                    i < self.collections.len(),
                    c == self.collections@[i as int],
                    j <= c.operations.len(),
                    first_match(flatten(cs), method, path@) == first_match(
                        ops_view(c.operations@).subrange(j as int, c.operations.len() as int) + flatten_from(cs, i + 1),
                        method, path@),
                decreases c.operations.len() - j,
            {
                let op = &c.operations[j];
                let ghost rest = ops_view(c.operations@).subrange(j as int, c.operations.len() as int) + flatten_from(cs, i + 1);
                assert(rest[0] == op@);
                assert(rest.drop_first() == ops_view(c.operations@).subrange(j + 1, c.operations.len() as int) + flatten_from(cs, i + 1));
                if op.method == method {
                    match crate::path_match::match_path_template(op.path.as_str(), path) {
                        Some(params) => {
                            return Some(MatchedOperation { operation: op.copy(), path_params: params });
                        },
                        None => {},
                    }
                }
                j += 1;
            }
            assert(ops_view(c.operations@).subrange(c.operations.len() as int, c.operations.len() as int)
                + flatten_from(cs, i + 1) == flatten_from(cs, i + 1));
            i += 1;
        }
        None
    }

    /// Matches a request URL against the project's operations (see `match_path`); fails
    /// when the text is not an absolute URL.
    pub fn match_url(&self, method: HttpMethod, url: &str) -> (r: Result<Option<MatchedOperation>, InvalidUrl>)
        ensures
            match r {
                Err(_) => spec_url_path(url@) is None,
                Ok(Some(m)) => spec_url_path(url@) is Some && first_match(flatten(self.collections_spec()), method, spec_url_path(url@)->0)
                    == Some((m.operation@, crate::path_match::pairs_view(m.path_params@))),
                Ok(None) => spec_url_path(url@) is Some && first_match(flatten(self.collections_spec()), method, spec_url_path(url@)->0) is None,
            },
    {
        match parse_url_path(url) {
            Ok(path) => Ok(self.match_path(method, path.as_str())),
            Err(e) => Err(InvalidUrl { message: url_error_message(&e) }),
        }
    }
}

/// All operations of the collections from index `i` on.
pub open spec fn flatten_from(cs: Seq<CollectionView>, i: int) -> Seq<OperationView>
    decreases cs.len() - i,
{
    if i >= cs.len() || i < 0 {
        seq![]
    } else {
        cs[i].operations + flatten_from(cs, i + 1)
    }
}

proof fn lemma_flatten_from_step(cs: Seq<CollectionView>, i: int)
    requires
        0 <= i < cs.len(),
    ensures
        flatten_from(cs, i) == cs[i].operations.subrange(0, cs[i].operations.len() as int) + flatten_from(cs, i + 1),
{
    assert(cs[i].operations.subrange(0, cs[i].operations.len() as int) == cs[i].operations);
}

proof fn lemma_flatten_split(cs: Seq<CollectionView>)
    ensures
        flatten(cs) == flatten_from(cs, 0),
    decreases cs.len(),
{
    if cs.len() > 0 {
        lemma_flatten_split(cs.drop_last());
        lemma_flatten_from_append(cs.drop_last(), cs.last(), 0);
        assert(cs.drop_last().push(cs.last()) == cs);
    }
}

proof fn lemma_flatten_from_append(cs: Seq<CollectionView>, c: CollectionView, i: int)
    requires
        0 <= i <= cs.len(),
    ensures
        flatten_from(cs.push(c), i) == flatten_from(cs, i) + c.operations,
    decreases cs.len() - i,
{
    if i < cs.len() {
        lemma_flatten_from_append(cs, c, i + 1);
        assert(cs.push(c)[i] == cs[i]);
        assert(flatten_from(cs.push(c), i) == cs[i].operations + (flatten_from(cs, i + 1) + c.operations));
    } else {
        assert(flatten_from(cs.push(c), i) == c.operations + flatten_from(cs.push(c), i + 1));
        assert(flatten_from(cs, i) =~= Seq::<OperationView>::empty());
    }
}

proof fn lemma_first_match_split(cs: Seq<CollectionView>, i: int, method: HttpMethod, path: Seq<char>)
    requires
        i == 0,
    ensures
        first_match(flatten(cs), method, path) == first_match(flatten_from(cs, i), method, path),
{
    lemma_flatten_split(cs);
}

/// A path without its leading slashes.
pub open spec fn trim_leading_slashes(s: Seq<char>) -> Seq<char>
    decreases s.len(),
{
    if s.len() > 0 && s[0] == '/' {
        trim_leading_slashes(s.drop_first())
    } else {
        s
    }
}

fn trim_leading_slashes_exec(s: &str) -> (r: String)
    ensures
        r@ == trim_leading_slashes(s@),
{
    let v = crate::text::chars_of(s);
    let mut i: usize = 0;
    assert(v@.subrange(0, v@.len() as int) == v@);
    while i < v.len() && v[i] == '/'
        invariant
            i <= v.len(),
            v@ == s@,
            trim_leading_slashes(s@) == trim_leading_slashes(v@.subrange(i as int, v@.len() as int)),
        decreases v.len() - i,
    {
        assert(v@.subrange(i as int, v@.len() as int).drop_first() == v@.subrange(i + 1, v@.len() as int));
        i += 1;
    }
    crate::text::string_of(&v.as_slice()[i..v.len()])
}

} // verus!
