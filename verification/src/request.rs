//! Turning the edited request into the request that is sent: path placeholders filled
//! from the query rows, the other query rows kept as the query string, templates
//! rendered, and disabled or unnamed rows left out.
use vstd::prelude::*;
use crate::method::HttpMethod;
use crate::project::RataProject;
use crate::text::{chars_of, string_of, char_count};
use crate::template::{find_spec, replace_spec, placeholder, render_spec, render, table_view, find_from, replace_all, placeholder_exec};
use crate::tui::{RequestDraft, DraftValue, ParamValue, ParamState, params_view, trim_trailing_slashes, trim_trailing_slashes_exec};

verus! {

/// A request ready to be sent.
#[derive(Debug)]
pub struct PreparedRequest {
    pub method: HttpMethod,
    pub url: String,
    pub query: Vec<(String, String)>,
    pub headers: Vec<(String, String)>,
    pub body: String,
}

/// The abstract value of a prepared request.
#[verifier::ext_equal]
pub struct PreparedValue {
    pub method: HttpMethod,
    pub url: Seq<char>,
    pub query: Seq<(Seq<char>, Seq<char>)>,
    pub headers: Seq<(Seq<char>, Seq<char>)>,
    pub body: Seq<char>,
}

impl View for PreparedRequest {
    type V = PreparedValue;

    open spec fn view(&self) -> PreparedValue {
        PreparedValue {
            method: self.method,
            url: self.url@,
            query: table_view(self.query@),
            headers: table_view(self.headers@),
            body: self.body@,
        }
    }
}

/// The single-brace placeholder `{name}`.
pub open spec fn brace(name: Seq<char>) -> Seq<char> {
    seq!['{'] + name + seq!['}']
}

/// Whether a text holds a pattern.
pub open spec fn holds_text(s: Seq<char>, pat: Seq<char>) -> bool {
    find_spec(s, pat) is Some
}

/// Whether a row takes part in the request: it is enabled and has a name.
pub open spec fn in_use(p: ParamValue) -> bool {
    p.enabled && p.key.len() > 0
}

/// The URL with the query rows applied one after the other, and the query string's
/// pairs: a row whose `{{name}}` or `{name}` occurs in the URL replaces every occurrence
/// of both; any other row with a value becomes a query pair.
pub open spec fn fill_params(url: Seq<char>, ps: Seq<ParamValue>) -> (Seq<char>, Seq<(Seq<char>, Seq<char>)>)
    decreases ps.len(),
{
    if ps.len() == 0 {
        (url, seq![])
    } else {
        let r = fill_params(url, ps.drop_last());
        let p = ps.last();
        if !in_use(p) {
            r
        } else if holds_text(r.0, placeholder(p.key)) || holds_text(r.0, brace(p.key)) {
            (replace_spec(replace_spec(r.0, placeholder(p.key), p.value), brace(p.key), p.value), r.1)
        } else if p.value.len() > 0 {
            (r.0, r.1.push((p.key, p.value)))
        } else {
            r
        }
    }
}

/// The headers sent: the rows in use, with their values rendered.
pub open spec fn header_pairs(hs: Seq<ParamValue>, vars: Seq<(Seq<char>, Seq<char>)>, env: Seq<(Seq<char>, Seq<char>)>)
    -> Seq<(Seq<char>, Seq<char>)>
    decreases hs.len(),
{
    if hs.len() == 0 {
        seq![]
    } else if in_use(hs.last()) {
        header_pairs(hs.drop_last(), vars, env).push((hs.last().key, render_spec(hs.last().value, vars, env)))
    } else {
        header_pairs(hs.drop_last(), vars, env)
    }
}

/// The request sent for an edited request, with the given variables and environment: the
/// URL filled from the query rows and then rendered, the remaining query pairs, the
/// headers in use, and the rendered body.
pub open spec fn prepared_spec(d: DraftValue, vars: Seq<(Seq<char>, Seq<char>)>, env: Seq<(Seq<char>, Seq<char>)>) -> PreparedValue {
    let f = fill_params(d.url, d.params);
    PreparedValue {
        method: d.method,
        url: render_spec(f.0, vars, env),
        query: f.1,
        headers: header_pairs(d.headers, vars, env),
        body: render_spec(d.body, vars, env),
    }
}

/// The variables a request is rendered with: `baseUrl`, the project's server without
/// trailing slashes, when the document names a server.
pub open spec fn variables_spec(project: Option<&RataProject>) -> Seq<(Seq<char>, Seq<char>)> {
    match project {
        Some(p) => match p.server_url_spec() {
            Some(s) => seq![(seq!['b', 'a', 's', 'e', 'U', 'r', 'l'], trim_trailing_slashes(s))],
            None => seq![],
        },
        None => seq![],
    }
}

/// The variables a request is rendered with (see `variables_spec`).
pub fn request_variables(project: Option<&RataProject>) -> (r: Vec<(String, String)>)
    ensures
        table_view(r@) == variables_spec(project),
{
    proof {
        reveal_strlit("baseUrl");
        assert("baseUrl"@ =~= seq!['b', 'a', 's', 'e', 'U', 'r', 'l']);
    }
    let mut v: Vec<(String, String)> = Vec::new();
    match project {
        Some(p) => match p.server_url() {
            Some(s) => {
                v.push((String::from_str("baseUrl"), trim_trailing_slashes_exec(s)));
            },
            None => {},
        },
        None => {},
    }
    assert(table_view(v@) =~= variables_spec(project));
    v
}

fn contains_text(s: &[char], pat: &[char]) -> (r: bool)
    ensures
        r == holds_text(s@, pat@),
{
    assert(s@.subrange(0, s@.len() as int) =~= s@);
    find_from(s, 0, pat).is_some()
}

fn brace_exec(name: &[char]) -> (r: Vec<char>)
    ensures
        r@ == brace(name@),
{
    let mut v: Vec<char> = vec!['{'];
    let mut i: usize = 0;
    while i < name.len()
        invariant
            i <= name.len(),
            v@ == seq!['{'] + name@.take(i as int),
        decreases name.len() - i,
    {
        v.push(name[i]);
        assert(name@.take(i + 1) =~= name@.take(i as int).push(name@[i as int]));
        assert(seq!['{'] + name@.take(i + 1) =~= (seq!['{'] + name@.take(i as int)).push(name@[i as int]));
        i += 1;
    }
    v.push('}');
    assert(name@.take(name.len() as int) =~= name@);
    assert(v@ =~= brace(name@));
    v
}

/// Applies the query rows to the URL (see `fill_params`).
pub fn fill_url_params(url: &str, params: &Vec<ParamState>) -> (r: (String, Vec<(String, String)>))
    ensures
        r.0@ == fill_params(url@, params_view(params@)).0,
        table_view(r.1@) == fill_params(url@, params_view(params@)).1,
{
    let ghost pv = params_view(params@);
    let mut cur = chars_of(url);
    let mut query: Vec<(String, String)> = Vec::new();
    let mut i: usize = 0;
    while i < params.len()
        invariant
            i <= params.len(),
            pv == params_view(params@),
            cur@ == fill_params(url@, pv.take(i as int)).0,
            table_view(query@) == fill_params(url@, pv.take(i as int)).1,
        decreases params.len() - i,
    {
        assert(pv.take(i + 1).drop_last() =~= pv.take(i as int));
        assert(pv.take(i + 1).last() == params@[i as int]@);
        let p = &params[i];
        let key_len = char_count(p.key.as_str());
        if p.enabled && key_len > 0 {
            let k = chars_of(p.key.as_str());
            let v = chars_of(p.value.as_str());
            let p2 = placeholder_exec(p.key.as_str());
            let p1 = brace_exec(k.as_slice());
            if contains_text(cur.as_slice(), p2.as_slice()) || contains_text(cur.as_slice(), p1.as_slice()) {
                let a = replace_all(cur.as_slice(), p2.as_slice(), v.as_slice());
                cur = replace_all(a.as_slice(), p1.as_slice(), v.as_slice());
            } else if char_count(p.value.as_str()) > 0 {
                let ghost before = table_view(query@);
                let pair = (p.key.clone(), p.value.clone());
                query.push(pair);
                assert(table_view(query@) =~= before.push((p.key@, p.value@)));
            }
        }
        i += 1;
    }
    assert(pv.take(params.len() as int) =~= pv);
    (string_of(cur.as_slice()), query)
}

/// The headers in use, with their values rendered (see `header_pairs`).
pub fn request_headers(headers: &Vec<ParamState>, variables: &[(String, String)], env: &[(String, String)]) -> (r: Vec<(String, String)>)
    ensures
        table_view(r@) == header_pairs(params_view(headers@), table_view(variables@), table_view(env@)),
{
    let ghost hv = params_view(headers@);
    let mut out: Vec<(String, String)> = Vec::new();
    let mut i: usize = 0;
    while i < headers.len()
        invariant
            i <= headers.len(),
            hv == params_view(headers@),
            table_view(out@) == header_pairs(hv.take(i as int), table_view(variables@), table_view(env@)),
        decreases headers.len() - i,
    {
        assert(hv.take(i + 1).drop_last() =~= hv.take(i as int));
        assert(hv.take(i + 1).last() == headers@[i as int]@);
        let h = &headers[i];
        if h.enabled && char_count(h.key.as_str()) > 0 {
            let value = render(h.value.as_str(), variables, env);
            let ghost before = table_view(out@);
            let pair = (h.key.clone(), value);
            out.push(pair);
            assert(table_view(out@) =~= before.push((h.key@, render_spec(h.value@, table_view(variables@), table_view(env@)))));
        }
        i += 1;
    }
    assert(hv.take(headers.len() as int) =~= hv);
    out
}

/// The request sent for an edited request (see `prepared_spec`).
pub fn prepare_request(draft: &RequestDraft, variables: &[(String, String)], env: &[(String, String)]) -> (r: PreparedRequest)
    ensures
        r@ == prepared_spec(draft@, table_view(variables@), table_view(env@)),
{
    let (url, query) = fill_url_params(draft.url.as_str(), &draft.params);
    let final_url = render(url.as_str(), variables, env);
    let headers = request_headers(&draft.headers, variables, env);
    let body = render(draft.body.as_str(), variables, env);
    PreparedRequest { method: draft.method, url: final_url, query, headers, body }
}


/// Whether some row in use has this name and this value.
pub open spec fn row_in_use(rows: Seq<ParamValue>, key: Seq<char>, value: Seq<char>) -> bool {
    exists|j: int| 0 <= j < rows.len() && in_use(#[trigger] rows[j]) && rows[j].key == key && rows[j].value == value
}

/// Whether some row in use has this name.
pub open spec fn named_row_in_use(rows: Seq<ParamValue>, key: Seq<char>) -> bool {
    exists|j: int| 0 <= j < rows.len() && in_use(#[trigger] rows[j]) && rows[j].key == key
}

/// Only the rows in use reach the request: every header sent comes from an enabled
/// row with a name, and every query pair is the name and value of such a row.
pub proof fn law_only_rows_in_use_are_sent(d: DraftValue, vars: Seq<(Seq<char>, Seq<char>)>, env: Seq<(Seq<char>, Seq<char>)>)
    ensures
        forall|i: int| 0 <= i < prepared_spec(d, vars, env).headers.len() ==>
            named_row_in_use(d.headers, #[trigger] prepared_spec(d, vars, env).headers[i].0),
        forall|i: int| 0 <= i < prepared_spec(d, vars, env).query.len() ==>
            row_in_use(d.params, #[trigger] prepared_spec(d, vars, env).query[i].0, prepared_spec(d, vars, env).query[i].1),
{
    lemma_headers_in_use(d.headers, vars, env);
    lemma_query_in_use(d.url, d.params);
}

proof fn lemma_headers_in_use(hs: Seq<ParamValue>, vars: Seq<(Seq<char>, Seq<char>)>, env: Seq<(Seq<char>, Seq<char>)>)
    ensures
        forall|i: int| 0 <= i < header_pairs(hs, vars, env).len() ==> named_row_in_use(hs, #[trigger] header_pairs(hs, vars, env)[i].0),
    decreases hs.len(),
{
    if hs.len() > 0 {
        let rest = hs.drop_last();
        lemma_headers_in_use(rest, vars, env);
        assert forall|i: int| 0 <= i < header_pairs(hs, vars, env).len() implies named_row_in_use(hs, #[trigger] header_pairs(hs, vars, env)[i].0) by {
            if i < header_pairs(rest, vars, env).len() {
                assert(header_pairs(hs, vars, env)[i] == header_pairs(rest, vars, env)[i]);
                assert(named_row_in_use(rest, header_pairs(rest, vars, env)[i].0));
                let j = choose|j: int| 0 <= j < rest.len() && in_use(#[trigger] rest[j]) && rest[j].key == header_pairs(rest, vars, env)[i].0;
                assert(hs[j] == rest[j]);
            } else {
                let j = hs.len() - 1;
                assert(hs[j] == hs.last());
                assert(in_use(hs[j]));
            }
        }
    }
}

proof fn lemma_query_in_use(url: Seq<char>, ps: Seq<ParamValue>)
    ensures
        forall|i: int| 0 <= i < fill_params(url, ps).1.len() ==>
            row_in_use(ps, #[trigger] fill_params(url, ps).1[i].0, fill_params(url, ps).1[i].1),
    decreases ps.len(),
{
    if ps.len() > 0 {
        let rest = ps.drop_last();
        lemma_query_in_use(url, rest);
        assert forall|i: int| 0 <= i < fill_params(url, ps).1.len() implies
            row_in_use(ps, #[trigger] fill_params(url, ps).1[i].0, fill_params(url, ps).1[i].1) by {
            if i < fill_params(url, rest).1.len() {
                assert(fill_params(url, ps).1[i] == fill_params(url, rest).1[i]);
                assert(row_in_use(rest, fill_params(url, rest).1[i].0, fill_params(url, rest).1[i].1));
                let j = choose|j: int| 0 <= j < rest.len() && in_use(#[trigger] rest[j]) && rest[j].key == fill_params(url, rest).1[i].0
                    && rest[j].value == fill_params(url, rest).1[i].1;
                assert(ps[j] == rest[j]);
            } else {
                let j = ps.len() - 1;
                assert(ps[j] == ps.last());
                assert(in_use(ps[j]));
            }
        }
    }
}


/// The name and value of every row in use that has a value, in row order.
pub open spec fn valued_rows(ps: Seq<ParamValue>) -> Seq<(Seq<char>, Seq<char>)>
    decreases ps.len(),
{
    if ps.len() == 0 {
        seq![]
    } else if in_use(ps.last()) && ps.last().value.len() > 0 {
        valued_rows(ps.drop_last()).push((ps.last().key, ps.last().value))
    } else {
        valued_rows(ps.drop_last())
    }
}

/// When the URL names none of the rows in use (neither `{{name}}` nor `{name}` occurs in
/// it), the URL is left as it is and every row in use with a value is sent as a query
/// pair, in row order.
pub proof fn law_query_sends_every_valued_row(url: Seq<char>, ps: Seq<ParamValue>)
    requires
        forall|j: int| 0 <= j < ps.len() && in_use(#[trigger] ps[j]) ==>
            !holds_text(url, placeholder(ps[j].key)) && !holds_text(url, brace(ps[j].key)),
    ensures
        fill_params(url, ps) == (url, valued_rows(ps)),
    decreases ps.len(),
{
    if ps.len() > 0 {
        let rest = ps.drop_last();
        assert forall|j: int| 0 <= j < rest.len() && in_use(#[trigger] rest[j]) implies
            !holds_text(url, placeholder(rest[j].key)) && !holds_text(url, brace(rest[j].key)) by {
            assert(rest[j] == ps[j]);
        }
        law_query_sends_every_valued_row(url, rest);
        assert(ps.last() == ps[ps.len() - 1]);
    }
}

proof fn lemma_query_prefix(url: Seq<char>, ps: Seq<ParamValue>, j: int, k: int)
    requires
        0 <= j <= k <= ps.len(),
    ensures
        fill_params(url, ps.take(j)).1.len() <= fill_params(url, ps.take(k)).1.len(),
        forall|m: int| 0 <= m < fill_params(url, ps.take(j)).1.len() ==>
            fill_params(url, ps.take(k)).1[m] == #[trigger] fill_params(url, ps.take(j)).1[m],
    decreases k - j,
{
    if j < k {
        lemma_query_prefix(url, ps, j, k - 1);
        assert(ps.take(k).drop_last() =~= ps.take(k - 1));
        let a = fill_params(url, ps.take(k - 1)).1;
        let b = fill_params(url, ps.take(k)).1;
        assert(b == a || b == a.push((ps.take(k).last().key, ps.take(k).last().value)));
    }
}

/// Every row in use with a value that the URL (as filled by the rows before it) does not
/// name is sent: it is the query pair right after the pairs of the rows before it, so the
/// query string lists all such rows in row order.
pub proof fn law_unplaced_row_is_sent(url: Seq<char>, ps: Seq<ParamValue>, i: int)
    requires
        0 <= i < ps.len(),
        in_use(ps[i]),
        ps[i].value.len() > 0,
        !holds_text(fill_params(url, ps.take(i)).0, placeholder(ps[i].key)),
        !holds_text(fill_params(url, ps.take(i)).0, brace(ps[i].key)),
    ensures
        fill_params(url, ps).1.len() > fill_params(url, ps.take(i)).1.len(),
        fill_params(url, ps).1[fill_params(url, ps.take(i)).1.len() as int] == (ps[i].key, ps[i].value),
{
    assert(ps.take(i + 1).drop_last() =~= ps.take(i));
    assert(ps.take(i + 1).last() == ps[i]);
    let n = fill_params(url, ps.take(i)).1.len();
    assert(fill_params(url, ps.take(i + 1)).1 == fill_params(url, ps.take(i)).1.push((ps[i].key, ps[i].value)));
    assert(fill_params(url, ps.take(i + 1)).1[n as int] == (ps[i].key, ps[i].value));
    lemma_query_prefix(url, ps, i + 1, ps.len() as int);
    assert(ps.take(ps.len() as int) =~= ps);
}

} // verus!
