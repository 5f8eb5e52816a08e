//! Reading the text of an OpenAPI document: `openapiv3` parses it, and the library reads
//! the parts it needs out of the parsed document into an `ApiDocument`.
use vstd::prelude::*;
use crate::project::{ApiDocument, ApiPath, ApiPathItem, ApiOperation, ApiParameter, ParamLocation, RataProject,
    group_by_tag, doc_operations, opt_view};
use crate::refs::{texts, JsonValue, Json, json_of, Halt, stop_of, copy_json, resolve_document, document_outcome, members_of};
use crate::discovery::{is_json_spec, is_json_document};

verus! {

/// A parameter as an OpenAPI document declares it.
pub struct ParameterDecl {
    pub name: Seq<char>,
    pub location: ParamLocation,
    pub description: Option<Seq<char>>,
    pub required: bool,
}

/// An operation as an OpenAPI document declares it; a parameter that is a `$ref` is
/// `None`.
pub struct OperationDecl {
    pub tags: Seq<Seq<char>>,
    pub summary: Option<Seq<char>>,
    pub operation_id: Option<Seq<char>>,
    pub parameters: Seq<Option<ParameterDecl>>,
}

/// The operations of a path, one per method in the order GET, POST, PUT, PATCH, DELETE,
/// and the parameters they share.
pub struct PathItemDecl {
    pub operations: Seq<Option<OperationDecl>>,
    pub parameters: Seq<Option<ParameterDecl>>,
}

/// One entry of `paths`; an entry that is a `$ref` has no item.
pub struct PathDecl {
    pub path: Seq<char>,
    pub item: Option<PathItemDecl>,
}

/// The parts of an OpenAPI document the library reads: its server URLs and its paths,
/// in document order.
pub struct DocumentDecl {
    pub servers: Seq<Seq<char>>,
    pub paths: Seq<PathDecl>,
}

/// What `openapiv3` reads from the text of an OpenAPI document (as JSON when `json`, else
/// as YAML), or nothing when the text is not an OpenAPI document.
pub uninterp spec fn spec_openapi_document(source: Seq<char>, json: bool) -> Option<DocumentDecl>;

pub open spec fn param_decl(p: ApiParameter) -> ParameterDecl {
    ParameterDecl { name: p.name@, location: p.location, description: opt_view(p.description), required: p.required }
}

pub open spec fn params_decl(v: Seq<Option<ApiParameter>>) -> Seq<Option<ParameterDecl>> {
    v.map_values(|o: Option<ApiParameter>| match o {
        Some(p) => Some(param_decl(p)),
        None => None,
    })
}

pub open spec fn op_decl(o: ApiOperation) -> OperationDecl {
    OperationDecl {
        tags: texts(o.tags@),
        summary: opt_view(o.summary),
        operation_id: opt_view(o.operation_id),
        parameters: params_decl(o.parameters@),
    }
}

pub open spec fn opt_op_decl(o: Option<ApiOperation>) -> Option<OperationDecl> {
    match o {
        Some(x) => Some(op_decl(x)),
        None => None,
    }
}

pub open spec fn item_decl(i: ApiPathItem) -> PathItemDecl {
    PathItemDecl {
        operations: seq![opt_op_decl(i.get), opt_op_decl(i.post), opt_op_decl(i.put), opt_op_decl(i.patch), opt_op_decl(i.delete)],
        parameters: params_decl(i.parameters@),
    }
}

pub open spec fn path_decl(p: ApiPath) -> PathDecl {
    PathDecl {
        path: p.path@,
        item: match p.item {
            Some(i) => Some(item_decl(i)),
            None => None,
        },
    }
}

pub open spec fn doc_decl(d: ApiDocument) -> DocumentDecl {
    DocumentDecl { servers: texts(d.servers@), paths: d.paths@.map_values(|p: ApiPath| path_decl(p)) }
}

/// The `openapiv3` document type, carried through unopened.
#[verifier::external_type_specification]
#[verifier::external_body]
pub struct ExOpenApi(openapiv3::OpenAPI);

/// What `openapiv3` reads from a JSON value (`serde_json::from_value`), or nothing when
/// the value is not an OpenAPI document.
pub uninterp spec fn spec_openapi_value(v: Json) -> Option<DocumentDecl>;

/// What a document was parsed from: a text (read as JSON when the flag is set, else as
/// YAML) or a JSON value.
pub enum DocOrigin {
    Text(String, bool),
    Value(JsonValue),
}

/// A parsed OpenAPI document together with what it was parsed from.
pub struct ParsedDocument {
    doc: openapiv3::OpenAPI,
    origin: DocOrigin,
}

impl ParsedDocument {
    /// What the parsed document holds (see `spec_openapi_document` and
    /// `spec_openapi_value`).
    pub closed spec fn decl(&self) -> DocumentDecl {
        match self.origin {
            DocOrigin::Text(s, j) => spec_openapi_document(s@, j)->0,
            DocOrigin::Value(v) => spec_openapi_value(json_of(v))->0,
        }
    }

    /// The `openapiv3` document itself, for the program around the library.
    pub fn into_openapi(self) -> openapiv3::OpenAPI {
        self.doc
    }

    /// The parameters of path `i` that the `k`-th method's operation declares, or those of
    /// the path itself when `k` is 5.
    pub closed spec fn param_list(&self, i: int, k: int) -> Seq<Option<ParameterDecl>> {
        let item = self.decl().paths[i].item->0;
        if k < 5 { item.operations[k]->0.parameters } else { item.parameters }
    }

    /// Whether the `k`-th method's operation of path `i` (or, for `k` 5, the path itself)
    /// is there to read parameters from.
    pub closed spec fn has_list(&self, i: int, k: int) -> bool {
        &&& 0 <= i < self.decl().paths.len()
        &&& self.decl().paths[i].item is Some
        &&& 0 <= k <= 5
        &&& k < 5 ==> self.decl().paths[i].item->0.operations[k] is Some
    }
}

/// Parses the text of an OpenAPI document into `openapiv3::OpenAPI`, with
/// `serde_json::from_str` when `json`, else with `serde_yaml::from_str`; the error's
/// message when it is not one.
#[verifier::external_body]
fn parse_openapi(source: &str, json: bool) -> (r: Result<ParsedDocument, String>)
    ensures
        match r {
            Ok(p) => spec_openapi_document(source@, json) == Some(p.decl()),
            Err(_) => spec_openapi_document(source@, json) is None,
        },
{
    let doc: openapiv3::OpenAPI = if json {
        serde_json::from_str(source).map_err(|e| e.to_string())?
    } else {
        serde_yaml::from_str(source).map_err(|e| e.to_string())?
    };
    Ok(ParsedDocument { doc, origin: DocOrigin::Text(source.to_string(), json) })
}

/// Reads a JSON value into `openapiv3::OpenAPI` with `serde_json::from_value`; the error's
/// message when it is not an OpenAPI document.
#[verifier::external_body]
fn openapi_from_value(v: JsonValue) -> (r: Result<ParsedDocument, String>)
    ensures
        match r {
            Ok(p) => spec_openapi_value(json_of(v)) == Some(p.decl()),
            Err(_) => spec_openapi_value(json_of(v)) is None,
        },
{
    let doc: openapiv3::OpenAPI = serde_json::from_value(serde_json::Value::from(&v)).map_err(|e| e.to_string())?;
    Ok(ParsedDocument { doc, origin: DocOrigin::Value(v) })
}

/// The URLs of the document's servers (`OpenAPI::servers`, each `Server::url`).
#[verifier::external_body]
fn servers_of(p: &ParsedDocument) -> (r: Vec<String>)
    ensures
        texts(r@) == p.decl().servers,
{
    p.doc.servers.iter().map(|s| s.url.clone()).collect()
}

/// The number of entries of the document's `paths`.
#[verifier::external_body]
fn path_count(p: &ParsedDocument) -> (r: usize)
    ensures
        r == p.decl().paths.len(),
{
    p.doc.paths.paths.len()
}

/// The `i`-th entry of `paths`: its path and whether it is an item (not a `$ref`); an
/// item has one slot for each of the five methods the library reads.
#[verifier::external_body]
fn path_at(p: &ParsedDocument, i: usize) -> (r: (String, bool))
    requires
        i < p.decl().paths.len(),
    ensures
        r.0@ == p.decl().paths[i as int].path,
        r.1 == p.decl().paths[i as int].item is Some,
        r.1 ==> p.decl().paths[i as int].item->0.operations.len() == 5,
{
    let (path, entry) = p.doc.paths.paths.get_index(i).unwrap();
    (path.clone(), entry.as_item().is_some())
}

/// The tags, summary and operation id of the `k`-th method's operation (GET, POST, PUT,
/// PATCH, DELETE) of the `i`-th path, when it has one.
#[verifier::external_body]
fn operation_at(p: &ParsedDocument, i: usize, k: usize) -> (r: Option<(Vec<String>, Option<String>, Option<String>)>)
    requires
        i < p.decl().paths.len(),
        p.decl().paths[i as int].item is Some,
        k < 5,
    ensures
        match r {
            Some(t) => p.decl().paths[i as int].item->0.operations[k as int] matches Some(o)
                && texts(t.0@) == o.tags && opt_view(t.1) == o.summary && opt_view(t.2) == o.operation_id,
            None => p.decl().paths[i as int].item->0.operations[k as int] is None,
        },
{
    let item = p.doc.paths.paths[i].as_item().unwrap();
    let op = [&item.get, &item.post, &item.put, &item.patch, &item.delete][k].as_ref()?;
    Some((op.tags.clone(), op.summary.clone(), op.operation_id.clone()))
}

/// The `k`-th method's parameter list of path `i` (the path's own for `k` 5), as
/// `openapiv3` holds it.
#[verifier::external_body]
fn param_len(p: &ParsedDocument, i: usize, k: usize) -> (r: usize)
    requires
        p.has_list(i as int, k as int),
    ensures
        r == p.param_list(i as int, k as int).len(),
{
    let item = p.doc.paths.paths[i].as_item().unwrap();
    let ops = [&item.get, &item.post, &item.put, &item.patch, &item.delete];
    if k < 5 { ops[k].as_ref().unwrap().parameters.len() } else { item.parameters.len() }
}

/// The `j`-th parameter of a parameter list (see `param_len`), or nothing for a `$ref`.
#[verifier::external_body]
fn param_at(p: &ParsedDocument, i: usize, k: usize, j: usize) -> (r: Option<ApiParameter>)
    requires
        p.has_list(i as int, k as int),
        j < p.param_list(i as int, k as int).len(),
    ensures
        match r {
            Some(x) => p.param_list(i as int, k as int)[j as int] == Some(param_decl(x)),
            None => p.param_list(i as int, k as int)[j as int] is None,
        },
{
    let item = p.doc.paths.paths[i].as_item().unwrap();
    let ps = if k < 5 { &[&item.get, &item.post, &item.put, &item.patch, &item.delete][k].as_ref().unwrap().parameters } else { &item.parameters };
    let q = ps[j].as_item()?;
    let d = q.parameter_data_ref();
    let location = match q {
        openapiv3::Parameter::Query { .. } => ParamLocation::Query,
        openapiv3::Parameter::Header { .. } => ParamLocation::Header,
        openapiv3::Parameter::Path { .. } => ParamLocation::Path,
        openapiv3::Parameter::Cookie { .. } => ParamLocation::Cookie,
    };
    Some(ApiParameter { name: d.name.clone(), location, description: d.description.clone(), required: d.required })
}

/// The parameter list `k` of path `i` (see `ParsedDocument::param_list`), read out.
fn read_params(p: &ParsedDocument, i: usize, k: usize) -> (r: Vec<Option<ApiParameter>>)
    requires
        p.has_list(i as int, k as int),
    ensures
        params_decl(r@) == p.param_list(i as int, k as int),
{
    let n = param_len(p, i, k);
    let mut out: Vec<Option<ApiParameter>> = Vec::new();
    let mut j: usize = 0;
    while j < n
        invariant
            p.has_list(i as int, k as int),
            n == p.param_list(i as int, k as int).len(),
            j <= n,
            params_decl(out@) == p.param_list(i as int, k as int).take(j as int),
        decreases n - j,
    {
        let x = param_at(p, i, k, j);
        let ghost before = out@;
        out.push(x);
        assert(params_decl(out@) =~= p.param_list(i as int, k as int).take(j + 1)) by {
            assert(out@ == before.push(x));
            assert(params_decl(before.push(x)) =~= params_decl(before).push(params_decl(before.push(x))[j as int]));
        }
        j += 1;
    }
    assert(p.param_list(i as int, k as int).take(n as int) =~= p.param_list(i as int, k as int));
    out
}

/// The `k`-th method's operation of path `i`, read out, when it has one.
fn read_operation(p: &ParsedDocument, i: usize, k: usize) -> (r: Option<ApiOperation>)
    requires
        i < p.decl().paths.len(),
        p.decl().paths[i as int].item is Some,
        k < 5,
    ensures
        opt_op_decl(r) == p.decl().paths[i as int].item->0.operations[k as int],
{
    match operation_at(p, i, k) {
        Some((tags, summary, operation_id)) => {
            assert(p.has_list(i as int, k as int));
            let parameters = read_params(p, i, k);
            Some(ApiOperation { tags, summary, operation_id, parameters })
        },
        None => None,
    }
}

/// The `i`-th entry of `paths`, read out.
fn read_path(p: &ParsedDocument, i: usize) -> (r: ApiPath)
    requires
        i < p.decl().paths.len(),
    ensures
        path_decl(r) == p.decl().paths[i as int],
{
    let (path, is_item) = path_at(p, i);
    if !is_item {
        return ApiPath { path, item: None };
    }
    let get = read_operation(p, i, 0);
    let post = read_operation(p, i, 1);
    let put = read_operation(p, i, 2);
    let patch = read_operation(p, i, 3);
    let delete = read_operation(p, i, 4);
    assert(p.has_list(i as int, 5));
    let parameters = read_params(p, i, 5);
    let item = ApiPathItem { get, post, put, patch, delete, parameters };
    assert(item_decl(item).operations =~= p.decl().paths[i as int].item->0.operations) by {
        assert(p.decl().paths[i as int].item->0.operations.len() == 5);
    }
    ApiPath { path, item: Some(item) }
}

/// The parts of a parsed document the library reads (see `doc_decl`).
pub fn read_document(p: &ParsedDocument) -> (r: ApiDocument)
    ensures
        doc_decl(r) == p.decl(),
{
    let servers = servers_of(p);
    let n = path_count(p);
    let mut paths: Vec<ApiPath> = Vec::new();
    let mut i: usize = 0;
    while i < n
        invariant
            n == p.decl().paths.len(),
            i <= n,
            paths@.map_values(|q: ApiPath| path_decl(q)) == p.decl().paths.take(i as int),
        decreases n - i,
    {
        let x = read_path(p, i);
        let ghost before = paths@;
        paths.push(x);
        assert(paths@.map_values(|q: ApiPath| path_decl(q)) =~= p.decl().paths.take(i + 1)) by {
            assert(paths@ == before.push(x));
            assert(before.push(x).map_values(|q: ApiPath| path_decl(q)) =~= before.map_values(|q: ApiPath| path_decl(q)).push(path_decl(x)));
        }
        i += 1;
    }
    assert(p.decl().paths.take(n as int) =~= p.decl().paths);
    ApiDocument { servers, paths }
}

/// Whether a project is the one made from the text of its document: the text parses,
/// and the project has the root, the path and the first server of the parsed document,
/// and the collections of a document that holds what the parsed one holds.
pub open spec fn project_of_source(p: RataProject, root: Seq<char>, openapi_path: Seq<char>, source: Seq<char>) -> bool {
    let parsed = spec_openapi_document(source, is_json_spec(openapi_path));
    &&& parsed is Some
    &&& p.root_spec() == root
    &&& p.openapi_path_spec() == openapi_path
    &&& p.server_url_spec() == (if parsed->0.servers.len() > 0 { Some(parsed->0.servers[0]) } else { None::<Seq<char>> })
    &&& exists|d: ApiDocument| #[trigger] doc_decl(d) == parsed->0 && p.collections_spec() == group_by_tag(doc_operations(d.paths@))
}

impl RataProject {
    /// The project of a `.rata` directory from the text of its OpenAPI document read from
    /// `openapi_path`, parsed as JSON when the file name ends in `.json` and as YAML
    /// otherwise (see `project_of_source`), or the parse error's message.
    pub fn project_from_source(root: String, openapi_path: String, source: &str) -> (r: Result<RataProject, String>)
        ensures
            match r {
                Ok(p) => project_of_source(p, root@, openapi_path@, source@),
                Err(_) => spec_openapi_document(source@, is_json_spec(openapi_path@)) is None,
            },
    {
        let ghost root_v = root@;
        let ghost path_v = openapi_path@;
        let json = is_json_document(openapi_path.as_str());
        match parse_openapi(source, json) {
            Ok(parsed) => {
                let doc = read_document(&parsed);
                let project = RataProject::from_document(root, openapi_path, &doc);
                proof {
                    if doc.servers@.len() > 0 {
                        assert(texts(doc.servers@)[0] == doc.servers@[0]@);
                    }
                    assert(doc_decl(doc) == spec_openapi_document(source@, is_json_spec(path_v))->0);
                }
                Ok(project)
            },
            Err(e) => Err(e),
        }
    }
}

/// Why loading a document with references failed: the resolution stopped (for a file to
/// read, or on a fault), or the resolved value is not an OpenAPI document.
pub enum LoadError {
    Stopped(Halt),
    NotOpenApi(String),
}

/// Resolves the references of a document read from `path` against the files read so far
/// (see `resolve_document`) and reads the resolved value as an OpenAPI document (see
/// `spec_openapi_value`). Gives the document, the resolved value and the files read.
pub fn load_resolved(root: &JsonValue, path: &str, files: &Vec<(String, JsonValue)>) -> (r: Result<(ParsedDocument, JsonValue, Vec<String>), LoadError>)
    ensures
        match r {
            Ok((p, v, t)) => document_outcome(json_of(*root), path@, members_of(files@)) == Ok::<(Json, Seq<Seq<char>>), crate::refs::Stop>((json_of(v), texts(t@)))
                && spec_openapi_value(json_of(v)) == Some(p.decl()),
            Err(LoadError::Stopped(h)) => document_outcome(json_of(*root), path@, members_of(files@)) == Err::<(Json, Seq<Seq<char>>), crate::refs::Stop>(stop_of(h)),
            Err(LoadError::NotOpenApi(_)) => document_outcome(json_of(*root), path@, members_of(files@)) matches Ok((j, _))
                && spec_openapi_value(j) is None,
        },
{
    match resolve_document(root, path, files) {
        Ok((v, t)) => {
            let copy = copy_json(&v);
            match openapi_from_value(copy) {
                Ok(p) => Ok((p, v, t)),
                Err(e) => Err(LoadError::NotOpenApi(e)),
            }
        },
        Err(h) => Err(LoadError::Stopped(h)),
    }
}

} // verus!
