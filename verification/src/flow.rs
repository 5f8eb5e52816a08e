//! Choosing an operation, filling the request from it and from its examples, following
//! URL edits, and sending.
use vstd::prelude::*;
use crate::method::HttpMethod;
use crate::project::{RataProject, Operation, OperationView, OperationParameter, ParameterView, ExampleFile, CollectionView,
    Collection, MatchedOperation, flatten, first_match, spec_url_path, collections_view, ops_view};
use crate::template::{render, render_spec, table_view};
use crate::editing::is_ws;
use crate::tui::{TuiApp, AppValue, DraftValue, ModelValue, ResponseValue, ParamValue, ParamState, RequestDraft, ResponseView,
    ExampleData, Task, TaskValue, RequestTab, ActiveBlock, params_view, strings_view, names_view, example_names,
    user_agent_row, user_agent_header, base_url_placeholder, empty_response};

verus! {

// ---------------------------------------------------------------------------
// Rows from an operation's parameters
// ---------------------------------------------------------------------------

/// The literal `header`.
pub open spec fn header_label() -> Seq<char> {
    seq!['h', 'e', 'a', 'd', 'e', 'r']
}

/// The row a parameter becomes: its name, no value, enabled when it is required.
pub open spec fn param_row(p: ParameterView) -> ParamValue {
    ParamValue { key: p.name, value: seq![], enabled: p.required, required: p.required }
}

/// The rows of the parameters sent as headers (`headers`) or elsewhere (not `headers`),
/// in order.
pub open spec fn param_rows(ps: Seq<ParameterView>, headers: bool) -> Seq<ParamValue>
    decreases ps.len(),
{
    if ps.len() == 0 {
        seq![]
    } else if (ps.last().location == header_label()) == headers {
        param_rows(ps.drop_last(), headers).push(param_row(ps.last()))
    } else {
        param_rows(ps.drop_last(), headers)
    }
}

fn is_header_location(l: &String) -> (r: bool)
    ensures
        r == (l@ == header_label()),
{
    proof {
        reveal_strlit("header");
        assert("header"@ =~= header_label());
    }
    let h = String::from_str("header");
    *l == h
}

/// The rows of an operation's parameters (see `param_rows`).
pub fn operation_rows(ps: &Vec<OperationParameter>, headers: bool) -> (r: Vec<ParamState>)
    ensures
        params_view(r@) == param_rows(ps@.map_values(|p: OperationParameter| p@), headers),
{
    let ghost pv = ps@.map_values(|p: OperationParameter| p@);
    let mut out: Vec<ParamState> = Vec::new();
    let mut i: usize = 0;
    while i < ps.len()
        invariant
            i <= ps.len(),
            pv == ps@.map_values(|p: OperationParameter| p@),
            params_view(out@) == param_rows(pv.take(i as int), headers),
        decreases ps.len() - i,
    {
        assert(pv.take(i + 1).drop_last() =~= pv.take(i as int));
        assert(pv.take(i + 1).last() == ps@[i as int]@);
        let p = &ps[i];
        if is_header_location(&p.location) == headers {
            let row = ParamState { key: p.name.clone(), value: String::new(), enabled: p.required, required: p.required };
            let ghost before = out@;
            out.push(row);
            assert(params_view(out@) =~= params_view(before).push(row@));
        }
        i += 1;
    }
    assert(pv.take(ps.len() as int) =~= pv);
    out
}

// ---------------------------------------------------------------------------
// Selecting an operation
// ---------------------------------------------------------------------------

/// The state after choosing an operation: it is selected, the request takes its method
/// and the URL `{{baseUrl}}<path>`, the body is emptied, the query rows are its
/// non-header parameters and the header rows its header parameters followed by the
/// user agent row.
pub open spec fn select_spec(s: AppValue, op: OperationView) -> AppValue {
    AppValue {
        selected_operation: Some((op.method, op.path)),
        draft: DraftValue {
            method: op.method,
            url: base_url_placeholder() + op.path,
            body: seq![],
            params: param_rows(op.parameters, false),
            headers: param_rows(op.parameters, true).push(user_agent_row()),
        },
        ..s
    }
}

/// Whether every query row is disabled or has no value.
pub open spec fn query_empty(ps: Seq<ParamValue>) -> bool {
    forall|i: int| 0 <= i < ps.len() ==> !(#[trigger] ps[i]).enabled || ps[i].value.len() == 0
}

/// Whether a text is blank (empty or all white space).
pub open spec fn blank(s: Seq<char>) -> bool {
    forall|i: int| 0 <= i < s.len() ==> is_ws(#[trigger] s[i])
}

/// The request tab shown after the request was filled: the body when no query row is in
/// use and the body is not blank, else the query.
pub open spec fn tab_for(d: DraftValue) -> RequestTab {
    if query_empty(d.params) && !blank(d.body) { RequestTab::Body } else { RequestTab::Query }
}

/// The index of the first row with the given key, or the number of rows.
pub open spec fn key_index(rows: Seq<ParamValue>, key: Seq<char>) -> nat
    decreases rows.len(),
{
    if rows.len() == 0 {
        0
    } else if rows[0].key == key {
        0
    } else {
        1 + key_index(rows.drop_first(), key)
    }
}

/// The rows after setting one (key, value) pair: the first row with that key takes the
/// value and is enabled, or a new optional row is added at the end.
pub open spec fn merge_pair(rows: Seq<ParamValue>, kv: (Seq<char>, Seq<char>)) -> Seq<ParamValue> {
    let i = key_index(rows, kv.0);
    if i < rows.len() {
        rows.update(i as int, ParamValue { value: kv.1, enabled: true, ..rows[i as int] })
    } else {
        rows.push(ParamValue { key: kv.0, value: kv.1, enabled: true, required: false })
    }
}

/// The rows after setting the pairs one after the other.
pub open spec fn merge_pairs(rows: Seq<ParamValue>, kvs: Seq<(Seq<char>, Seq<char>)>) -> Seq<ParamValue>
    decreases kvs.len(),
{
    if kvs.len() == 0 {
        rows
    } else {
        merge_pair(merge_pairs(rows, kvs.drop_last()), kvs.last())
    }
}

/// The abstract value of an example's contents.
pub struct ExampleValue {
    pub params: Option<Seq<(Seq<char>, Seq<char>)>>,
    pub headers: Option<Seq<(Seq<char>, Seq<char>)>>,
    pub body: Option<Seq<char>>,
}

impl View for ExampleData {
    type V = ExampleValue;

    open spec fn view(&self) -> ExampleValue {
        ExampleValue {
            params: match self.params { Some(p) => Some(table_view(p@)), None => None },
            headers: match self.headers { Some(h) => Some(table_view(h@)), None => None },
            body: match self.body { Some(b) => Some(crate::json::spec_pretty_value(crate::refs::json_of(b))), None => None },
        }
    }
}

/// The request after loading an example into it: its parameters and headers are set
/// (see `merge_pair`), its body, as `serde_json::to_string_pretty` writes it (see
/// `spec_pretty_value`), replaces the body (or the body is emptied when it has none).
pub open spec fn loaded_draft(d: DraftValue, e: ExampleValue) -> DraftValue {
    DraftValue {
        params: match e.params { Some(p) => merge_pairs(d.params, p), None => d.params },
        headers: match e.headers { Some(h) => merge_pairs(d.headers, h), None => d.headers },
        body: match e.body { Some(b) => b, None => seq![] },
        ..d
    }
}

/// The state after loading an example: the request is filled and the tab chosen for it.
pub open spec fn load_spec(s: AppValue, e: ExampleValue) -> AppValue {
    let d = loaded_draft(s.draft, e);
    AppValue { draft: d, active_request_tab: tab_for(d), ..s }
}

/// The state after the examples of the chosen operation were listed: their names are
/// shown; when there are none and `update_tab`, the tab is chosen for the request.
pub open spec fn listed_spec(s: AppValue, names: Seq<Seq<char>>, update_tab: bool) -> AppValue {
    let s1 = AppValue { model: ModelValue { examples: names, ..s.model }, ..s };
    if names.len() == 0 && update_tab {
        AppValue { active_request_tab: tab_for(s1.draft), ..s1 }
    } else {
        s1
    }
}

// ---------------------------------------------------------------------------
// Following the URL
// ---------------------------------------------------------------------------

/// The state after the URL or the method was edited, before any operation is matched:
/// the rows, the body and the examples are emptied, no operation is selected, the
/// examples menu is closed, and the headers start again from the user agent row.
pub open spec fn url_reset(s: AppValue) -> AppValue {
    AppValue {
        draft: DraftValue { params: seq![], headers: seq![user_agent_row()], body: seq![], ..s.draft },
        model: ModelValue { examples: seq![], ..s.model },
        selected_operation: None,
        examples_dropdown_open: false,
        ..s
    }
}

/// The operation a URL edit selects: the URL is rendered with the environment, and the
/// first operation with the request's method whose template matches its path is chosen.
pub open spec fn url_match(s: AppValue, project: Option<&RataProject>) -> Option<OperationView> {
    match project {
        None => None,
        Some(p) => match spec_url_path(render_spec(s.draft.url, seq![], s.environment)) {
            None => None,
            Some(path) => match first_match(flatten(p.collections_spec()), s.draft.method, path) {
                None => None,
                Some(m) => Some(m.0),
            },
        },
    }
}

/// The state after the URL or the method was edited (see `url_reset`); when an operation
/// matches, it is selected and its parameters become rows.
pub open spec fn url_edited_spec(s: AppValue, project: Option<&RataProject>) -> AppValue {
    let r = url_reset(s);
    match url_match(s, project) {
        None => r,
        Some(op) => AppValue {
            selected_operation: Some((op.method, op.path)),
            draft: DraftValue {
                params: param_rows(op.parameters, false),
                headers: seq![user_agent_row()] + param_rows(op.parameters, true),
                ..r.draft
            },
            ..r
        },
    }
}

/// The task after the URL or the method was edited: list the matched operation's examples.
pub open spec fn url_edited_task(s: AppValue, project: Option<&RataProject>) -> TaskValue {
    match url_match(s, project) {
        None => TaskValue::Idle,
        Some(op) => TaskValue::ListExamples(op, false),
    }
}

// ---------------------------------------------------------------------------
// Moving through the operations
// ---------------------------------------------------------------------------

/// The operations of the collections that are not collapsed, in order.
pub open spec fn visible_ops(cs: Seq<CollectionView>, collapsed: Seq<Seq<char>>) -> Seq<OperationView>
    decreases cs.len(),
{
    if cs.len() == 0 {
        seq![]
    } else if collapsed.contains(cs.last().name) {
        visible_ops(cs.drop_last(), collapsed)
    } else {
        visible_ops(cs.drop_last(), collapsed) + cs.last().operations
    }
}

/// The index of the first operation with the given method and path, or the number of
/// operations.
pub open spec fn op_index(ops: Seq<OperationView>, m: HttpMethod, path: Seq<char>) -> nat
    decreases ops.len(),
{
    if ops.len() == 0 {
        0
    } else if ops[0].method == m && ops[0].path == path {
        0
    } else {
        1 + op_index(ops.drop_first(), m, path)
    }
}

/// The operation that Down selects among the visible ones: the one after the selected
/// operation (staying on the last), or the first when none of them is selected.
pub open spec fn next_op(ops: Seq<OperationView>, sel: Option<(HttpMethod, Seq<char>)>) -> OperationView {
    match sel {
        Some(p) => {
            let i = op_index(ops, p.0, p.1);
            if i < ops.len() {
                if i + 1 < ops.len() { ops[i + 1 as int] } else { ops[i as int] }
            } else {
                ops[0]
            }
        },
        None => ops[0],
    }
}

/// The operation that Up selects among the visible ones: the one before the selected
/// operation (staying on the first), or the first when none of them is selected.
pub open spec fn prev_op(ops: Seq<OperationView>, sel: Option<(HttpMethod, Seq<char>)>) -> OperationView {
    match sel {
        Some(p) => {
            let i = op_index(ops, p.0, p.1);
            if i < ops.len() && i > 0 { ops[i - 1] } else { ops[0] }
        },
        None => ops[0],
    }
}

/// The operation a step through the list selects, if there is a visible one.
pub open spec fn step_op(s: AppValue, project: Option<&RataProject>, forward: bool) -> Option<OperationView> {
    match project {
        None => None,
        Some(p) => {
            let ops = visible_ops(p.collections_spec(), s.collapsed_tags);
            if ops.len() == 0 {
                None
            } else if forward {
                Some(next_op(ops, s.selected_operation))
            } else {
                Some(prev_op(ops, s.selected_operation))
            }
        },
    }
}

/// The state and the task after stepping through the operations: the operation found
/// is chosen (see `select_spec`) and its examples are to be listed.
pub open spec fn step_spec(s: AppValue, project: Option<&RataProject>, forward: bool) -> (AppValue, TaskValue) {
    match step_op(s, project, forward) {
        None => (s, TaskValue::Idle),
        Some(op) => (select_spec(s, op), TaskValue::ListExamples(op, true)),
    }
}

/// The first operation of a list with the given method and path.
pub open spec fn find_op(ops: Seq<OperationView>, m: HttpMethod, path: Seq<char>) -> Option<OperationView> {
    let i = op_index(ops, m, path);
    if i < ops.len() { Some(ops[i as int]) } else { None }
}

/// The task of choosing the example at a row of the examples list: load it for the
/// selected operation, when the row, the project and the operation are there.
pub open spec fn example_task(s: AppValue, project: Option<&RataProject>, row: int) -> TaskValue {
    if 0 <= row < s.model.examples.len() {
        match (project, s.selected_operation) {
            (Some(p), Some(sel)) => match find_op(flatten(p.collections_spec()), sel.0, sel.1) {
                Some(op) => TaskValue::LoadExample(op, s.model.examples[row]),
                None => TaskValue::Idle,
            },
            _ => TaskValue::Idle,
        }
    } else {
        TaskValue::Idle
    }
}

// ---------------------------------------------------------------------------
// Sending
// ---------------------------------------------------------------------------

/// The state after asking to send: unchanged while a request is under way; else the
/// response is emptied and scrolled to the top, and the client waits.
pub open spec fn send_spec(s: AppValue) -> AppValue {
    if s.is_sending {
        s
    } else {
        AppValue { response_scroll: 0, response: empty_response(), sending_frame: 0, is_sending: true, ..s }
    }
}

/// The task after asking to send: send the request, unless one is under way.
pub open spec fn send_task(s: AppValue) -> TaskValue {
    if s.is_sending { TaskValue::Idle } else { TaskValue::Send(s.draft) }
}

/// The first example with the given name.
pub open spec fn example_index(names: Seq<Seq<char>>, name: Seq<char>) -> nat
    decreases names.len(),
{
    if names.len() == 0 {
        0
    } else if names[0] == name {
        0
    } else {
        1 + example_index(names.drop_first(), name)
    }
}

proof fn lemma_index_step<T>(s: Seq<T>, i: int)
    requires
        0 <= i < s.len(),
    ensures
        s.subrange(i, s.len() as int).drop_first() =~= s.subrange(i + 1, s.len() as int),
        s.subrange(i, s.len() as int)[0] == s[i],
{
}

/// The index of the first example with the given name, if any.
pub fn find_example(examples: &[ExampleFile], name: &str) -> (r: Option<usize>)
    ensures
        match r {
            Some(i) => i == example_index(names_view(examples@), name@) && i < examples@.len(),
            None => example_index(names_view(examples@), name@) == examples@.len(),
        },
{
    let ghost nv = names_view(examples@);
    let n = String::from_str(name);
    let mut i: usize = 0;
    assert(nv.subrange(0, nv.len() as int) =~= nv);
    while i < examples.len()
        invariant
            i <= examples.len(),
            nv == names_view(examples@),
            n@ == name@,
            example_index(nv, name@) == i + example_index(nv.subrange(i as int, nv.len() as int), name@),
        decreases examples.len() - i,
    {
        proof {
            lemma_index_step(nv, i as int);
        }
        if examples[i].name == n {
            return Some(i);
        }
        i += 1;
    }
    assert(nv.subrange(i as int, nv.len() as int).len() == 0);
    None
}

fn rows_index(rows: &Vec<ParamState>, key: &String) -> (r: usize)
    ensures
        r == key_index(params_view(rows@), key@),
        r <= rows@.len(),
{
    let ghost pv = params_view(rows@);
    let mut i: usize = 0;
    assert(pv.subrange(0, pv.len() as int) =~= pv);
    while i < rows.len()
        invariant
            i <= rows.len(),
            pv == params_view(rows@),
            key_index(pv, key@) == i + key_index(pv.subrange(i as int, pv.len() as int), key@),
        decreases rows.len() - i,
    {
        proof {
            lemma_index_step(pv, i as int);
        }
        if rows[i].key == *key {
            return i;
        }
        i += 1;
    }
    assert(pv.subrange(i as int, pv.len() as int).len() == 0);
    i
}

fn merge_into(rows: &mut Vec<ParamState>, kvs: &Vec<(String, String)>)
    ensures
        params_view(final(rows)@) == merge_pairs(params_view(old(rows)@), table_view(kvs@)),
{
    let ghost start = params_view(rows@);
    let ghost tv = table_view(kvs@);
    let mut i: usize = 0;
    while i < kvs.len()
        invariant
            i <= kvs.len(),
            tv == table_view(kvs@),
            params_view(rows@) == merge_pairs(start, tv.take(i as int)),
        decreases kvs.len() - i,
    {
        assert(tv.take(i + 1).drop_last() =~= tv.take(i as int));
        assert(tv.take(i + 1).last() == (kvs@[i as int].0@, kvs@[i as int].1@));
        let k = &kvs[i].0;
        let v = &kvs[i].1;
        let j = rows_index(rows, k);
        let ghost before = params_view(rows@);
        if j < rows.len() {
            let row = ParamState { key: rows[j].key.clone(), value: v.clone(), enabled: true, required: rows[j].required };
            rows.set(j, row);
            assert(params_view(rows@) =~= before.update(j as int, ParamValue { value: v@, enabled: true, ..before[j as int] }));
        } else {
            rows.push(ParamState { key: k.clone(), value: v.clone(), enabled: true, required: false });
            assert(params_view(rows@) =~= before.push(ParamValue { key: k@, value: v@, enabled: true, required: false }));
        }
        i += 1;
    }
    assert(tv.take(kvs.len() as int) =~= tv);
}

fn rows_unused(ps: &Vec<ParamState>) -> (r: bool)
    ensures
        r == query_empty(params_view(ps@)),
{
    let ghost pv = params_view(ps@);
    let mut i: usize = 0;
    while i < ps.len()
        invariant
            i <= ps.len(),
            pv == params_view(ps@),
            forall|k: int| 0 <= k < i ==> !(#[trigger] pv[k]).enabled || pv[k].value.len() == 0,
        decreases ps.len() - i,
    {
        assert(pv[i as int] == ps@[i as int]@);
        if ps[i].enabled && crate::text::char_count(ps[i].value.as_str()) != 0 {
            assert(!(!pv[i as int].enabled || pv[i as int].value.len() == 0));
            return false;
        }
        i += 1;
    }
    true
}

fn is_blank(s: &String) -> (r: bool)
    ensures
        r == blank(s@),
{
    let v = crate::text::chars_of(s.as_str());
    let mut i: usize = 0;
    while i < v.len()
        invariant
            i <= v.len(),
            v@ == s@,
            forall|k: int| 0 <= k < i ==> is_ws(#[trigger] v@[k]),
        decreases v.len() - i,
    {
        if !crate::editing::is_whitespace(v[i]) {
            return false;
        }
        i += 1;
    }
    true
}

pub(crate) fn contains_name(v: &Vec<String>, name: &String) -> (r: bool)
    ensures
        r == strings_view(v@).contains(name@),
{
    let mut i: usize = 0;
    while i < v.len()
        invariant
            i <= v.len(),
            forall|k: int| 0 <= k < i ==> v@[k]@ != name@,
        decreases v.len() - i,
    {
        if v[i] == *name {
            assert(strings_view(v@)[i as int] == name@);
            return true;
        }
        i += 1;
    }
    assert forall|k: int| 0 <= k < strings_view(v@).len() implies strings_view(v@)[k] != name@ by {
        assert(strings_view(v@)[k] == v@[k]@);
    }
    false
}

proof fn lemma_op_index_append(a: Seq<OperationView>, b: Seq<OperationView>, m: HttpMethod, path: Seq<char>)
    ensures
        op_index(a + b, m, path) == if op_index(a, m, path) < a.len() { op_index(a, m, path) } else { a.len() + op_index(b, m, path) },
        op_index(a, m, path) <= a.len(),
    decreases a.len(),
{
    if a.len() > 0 {
        lemma_op_index_append(a.drop_first(), b, m, path);
        assert((a + b).drop_first() =~= a.drop_first() + b);
        assert((a + b)[0] == a[0]);
    } else {
        assert(a + b =~= b);
    }
}

impl TuiApp {
    /// Chooses an operation (see `select_spec`); its examples are then to be listed, and
    /// an empty list chooses the request tab.
    pub fn select_operation(&mut self, operation: &Operation) -> (t: Task)
        ensures
            final(self)@ == select_spec(old(self)@, operation@),
            t@ == TaskValue::ListExamples(operation@, true),
    {
        proof {
            reveal_strlit("{{baseUrl}}");
            assert("{{baseUrl}}"@ =~= base_url_placeholder());
        }
        self.selected_operation = Some((operation.method, operation.path.clone()));
        self.draft.method = operation.method;
        let mut url = String::from_str("{{baseUrl}}");
        url.append(operation.path.as_str());
        self.draft.url = url;
        self.draft.body = String::new();
        self.draft.params = operation_rows(&operation.parameters, false);
        let mut h = operation_rows(&operation.parameters, true);
        let ghost hv = params_view(h@);
        let ua = user_agent_header();
        h.push(ua);
        assert(params_view(h@) =~= hv.push(user_agent_row()));
        self.draft.headers = h;
        assert(self@ =~= select_spec(old(self)@, operation@));
        Task::ListExamples(operation.copy(), true)
    }

    /// Chooses the request tab for the request (see `tab_for`).
    pub fn update_request_tab(&mut self)
        ensures
            final(self)@ == (AppValue { active_request_tab: tab_for(old(self)@.draft), ..old(self)@ }),
    {
        let q = rows_unused(&self.draft.params);
        let b = is_blank(&self.draft.body);
        self.active_request_tab = if q && !b { RequestTab::Body } else { RequestTab::Query };
    }

    /// Fills the request from the contents of an example (see `load_spec`).
    pub fn load_example(&mut self, data: &ExampleData)
        ensures
            final(self)@ == load_spec(old(self)@, data@),
    {
        match &data.params {
            Some(p) => merge_into(&mut self.draft.params, p),
            None => {},
        }
        match &data.headers {
            Some(h) => merge_into(&mut self.draft.headers, h),
            None => {},
        }
        self.draft.body = match &data.body {
            Some(b) => crate::json::pretty_value(b),
            None => String::new(),
        };
        assert(self@.draft =~= loaded_draft(old(self)@.draft, data@));
        self.update_request_tab();
        assert(self@ =~= load_spec(old(self)@, data@));
    }

    /// Takes the examples listed for the chosen operation (see `listed_spec`); gives the
    /// first, which is then to be read and handed to `load_example`.
    pub fn examples_listed(&mut self, examples: &[ExampleFile], update_tab: bool) -> (r: Option<ExampleFile>)
        ensures
            final(self)@ == listed_spec(old(self)@, names_view(examples@), update_tab),
            match r {
                Some(e) => examples@.len() > 0 && e.name@ == examples@[0].name@ && e.path@ == examples@[0].path@,
                None => examples@.len() == 0,
            },
    {
        self.model.examples = example_names(examples);
        if examples.len() > 0 {
            let e = ExampleFile { name: examples[0].name.clone(), path: examples[0].path.clone() };
            assert(self@ =~= listed_spec(old(self)@, names_view(examples@), update_tab));
            Some(e)
        } else {
            if update_tab {
                self.update_request_tab();
            }
            assert(self@ =~= listed_spec(old(self)@, names_view(examples@), update_tab));
            None
        }
    }

    /// Follows an edit of the URL or the method (see `url_edited_spec` and `url_edited_task`).
    pub fn handle_url_edited(&mut self, project: Option<&RataProject>) -> (t: Task)
        ensures
            final(self)@ == url_edited_spec(old(self)@, project),
            t@ == url_edited_task(old(self)@, project),
    {
        let ghost s0 = self@;
        self.draft.params = Vec::new();
        self.draft.headers = vec![user_agent_header()];
        self.draft.body = String::new();
        self.model.examples = Vec::new();
        self.selected_operation = None;
        self.examples_dropdown_open = false;
        assert(self@.draft.headers =~= seq![user_agent_row()]);
        assert(self@ =~= url_reset(s0));
        let p = match project {
            Some(p) => p,
            None => return Task::Idle,
        };
        let no_vars: Vec<(String, String)> = Vec::new();
        assert(table_view(no_vars@) =~= Seq::<(Seq<char>, Seq<char>)>::empty());
        let resolved = render(self.draft.url.as_str(), no_vars.as_slice(), self.environment.as_slice());
        match p.match_url(self.draft.method, resolved.as_str()) {
            Ok(Some(m)) => {
                let op = m.operation;
                self.selected_operation = Some((op.method, op.path.clone()));
                self.draft.params = operation_rows(&op.parameters, false);
                let hs = operation_rows(&op.parameters, true);
                let mut headers = vec![user_agent_header()];
                let mut i: usize = 0;
                let ghost base = params_view(headers@);
                assert(base =~= seq![user_agent_row()]);
                while i < hs.len()
                    invariant
                        i <= hs.len(),
                        base == seq![user_agent_row()],
                        params_view(headers@) == base + params_view(hs@).take(i as int),
                    decreases hs.len() - i,
                {
                    let c = hs[i].copy();
                    let ghost before = params_view(headers@);
                    headers.push(c);
                    assert(params_view(headers@) =~= before.push(c@));
                    assert(params_view(hs@).take(i + 1) =~= params_view(hs@).take(i as int).push(hs@[i as int]@));
                    i += 1;
                }
                assert(params_view(hs@).take(hs.len() as int) =~= params_view(hs@));
                self.draft.headers = headers;
                assert(url_match(s0, project) == Some(op@));
                assert(self@.draft =~= url_edited_spec(s0, project).draft);
                assert(self@ =~= url_edited_spec(s0, project));
                Task::ListExamples(op, false)
            },
            _ => Task::Idle,
        }
    }

    /// The operations of the collections that are not collapsed (see `visible_ops`).
    pub fn visible_operations(&self, project: &RataProject) -> (r: Vec<Operation>)
        ensures
            ops_view(r@) == visible_ops(project.collections_spec(), self@.collapsed_tags),
    {
        let cs = project.collections();
        let ghost cv = project.collections_spec();
        let ghost col = self@.collapsed_tags;
        let mut out: Vec<Operation> = Vec::new();
        let mut i: usize = 0;
        while i < cs.len()
            invariant
                i <= cs.len(),
                cv == project.collections_spec(),
                collections_view(cs@) == cv,
                col == self@.collapsed_tags,
                ops_view(out@) == visible_ops(cv.take(i as int), col),
            decreases cs.len() - i,
        {
            assert(cv.take(i + 1).drop_last() =~= cv.take(i as int));
            assert(cv.take(i + 1).last() == cs@[i as int]@);
            let c = &cs[i];
            if !contains_name(&self.collapsed_tags, &c.name) {
                let mut j: usize = 0;
                let ghost start = ops_view(out@);
                while j < c.operations.len()
                    invariant
                        j <= c.operations.len(),
                        ops_view(out@) == start + ops_view(c.operations@).take(j as int),
                    decreases c.operations.len() - j,
                {
                    let o = c.operations[j].copy();
                    let ghost before = ops_view(out@);
                    out.push(o);
                    assert(ops_view(out@) =~= before.push(o@));
                    assert(ops_view(c.operations@).take(j + 1) =~= ops_view(c.operations@).take(j as int).push(c.operations@[j as int]@));
                    j += 1;
                }
                assert(ops_view(c.operations@).take(c.operations.len() as int) =~= ops_view(c.operations@));
            }
            i += 1;
        }
        assert(cv.take(cs.len() as int) =~= cv);
        out
    }

    /// Steps to the next or the previous visible operation (see `step_spec`).
    pub fn step_operation(&mut self, project: Option<&RataProject>, forward: bool) -> (t: Task)
        ensures
            final(self)@ == step_spec(old(self)@, project, forward).0,
            t@ == step_spec(old(self)@, project, forward).1,
    {
        let p = match project {
            Some(p) => p,
            None => return Task::Idle,
        };
        let ops = self.visible_operations(p);
        let ghost ov = ops_view(ops@);
        if ops.len() == 0 {
            return Task::Idle;
        }
        let mut k: usize = 0;
        match &self.selected_operation {
            Some(sel) => {
                let mut i: usize = 0;
                assert(ov.subrange(0, ov.len() as int) =~= ov);
                while i < ops.len() && !(ops[i].method == sel.0 && ops[i].path == sel.1)
                    invariant
                        i <= ops.len(),
                        ov == ops_view(ops@),
                        op_index(ov, sel.0, sel.1@) == i + op_index(ov.subrange(i as int, ov.len() as int), sel.0, sel.1@),
                    decreases ops.len() - i,
                {
                    proof {
                        lemma_index_step(ov, i as int);
                    }
                    i += 1;
                }
                proof {
                    if i < ops.len() {
                        lemma_index_step(ov, i as int);
                    } else {
                        assert(ov.subrange(i as int, ov.len() as int).len() == 0);
                    }
                }
                if i < ops.len() {
                    if forward {
                        k = if i + 1 < ops.len() { i + 1 } else { i };
                    } else {
                        k = if i > 0 { i - 1 } else { 0 };
                    }
                }
            },
            None => {},
        }
        let op = ops[k].copy();
        assert(op@ == ov[k as int]);
        self.select_operation(&op)
    }

    /// The first operation of the project with the given method and path (see `find_op`).
    pub fn find_operation(project: &RataProject, method: HttpMethod, path: &String) -> (r: Option<Operation>)
        ensures
            match r {
                Some(op) => find_op(flatten(project.collections_spec()), method, path@) == Some(op@),
                None => find_op(flatten(project.collections_spec()), method, path@) is None,
            },
    {
        let cs = project.collections();
        let ghost cv = project.collections_spec();
        let mut i: usize = 0;
        while i < cs.len()
            invariant
                i <= cs.len(),
                cv == project.collections_spec(),
                collections_view(cs@) == cv,
                op_index(flatten(cv.take(i as int)), method, path@) == flatten(cv.take(i as int)).len(),
            decreases cs.len() - i,
        {
            assert(cv.take(i + 1).drop_last() =~= cv.take(i as int));
            assert(cv.take(i + 1).last() == cs@[i as int]@);
            let c = &cs[i];
            let ghost ovs = ops_view(c.operations@);
            let mut j: usize = 0;
            assert(ovs.subrange(0, ovs.len() as int) =~= ovs);
            while j < c.operations.len()
                invariant
                    j <= c.operations.len(),
                    ovs == ops_view(c.operations@),
                    op_index(ovs, method, path@) == j + op_index(ovs.subrange(j as int, ovs.len() as int), method, path@),
                    i < cs.len(),
                    cv == project.collections_spec(),
                    collections_view(cs@) == cv,
                    *c == cs@[i as int],
                    op_index(flatten(cv.take(i as int)), method, path@) == flatten(cv.take(i as int)).len(),
                decreases c.operations.len() - j,
            {
                proof {
                    lemma_index_step(ovs, j as int);
                }
                if c.operations[j].method == method && c.operations[j].path == *path {
                    let r = c.operations[j].copy();
                    proof {
                        let pre = flatten(cv.take(i as int));
                        lemma_op_index_append(pre, ovs, method, path@);
                        assert(cs@.len() == cv.len());
                        assert(cv[i as int] == cs@[i as int]@);
                        assert(cv[i as int].operations == ovs);
                        assert(cv.take(i + 1).drop_last() =~= cv.take(i as int));
                        assert(cv.take(i + 1).last() == cv[i as int]);
                        assert(flatten(cv.take(i + 1)) == pre + ovs);
                        lemma_op_index_append(flatten(cv.take(i + 1)), flatten(cv.skip(i + 1)), method, path@);
                        lemma_flatten_split_at(cv, i + 1);
                        assert((pre + ovs)[pre.len() + j] == ovs[j as int]);
                    }
                    return Some(r);
                }
                j += 1;
            }
            proof {
                assert(ovs.subrange(j as int, ovs.len() as int).len() == 0);
                let pre = flatten(cv.take(i as int));
                lemma_op_index_append(pre, ovs, method, path@);
                assert(cs@.len() == cv.len());
                assert(cv[i as int] == cs@[i as int]@);
                assert(cv[i as int].operations == ovs);
                assert(flatten(cv.take(i + 1)) == pre + ovs);
            }
            i += 1;
        }
        assert(cv.take(cs.len() as int) =~= cv);
        None
    }

    /// The task of choosing the example at a row of the examples list (see `example_task`).
    pub fn example_task(&self, project: Option<&RataProject>, row: usize) -> (t: Task)
        ensures
            t@ == example_task(self@, project, row as int),
    {
        if row >= self.model.examples.len() {
            return Task::Idle;
        }
        let name = self.model.examples[row].clone();
        assert(self@.model.examples[row as int] == name@);
        match (project, &self.selected_operation) {
            (Some(p), Some(sel)) => match TuiApp::find_operation(p, sel.0, &sel.1) {
                Some(op) => Task::LoadExample(op, name),
                None => Task::Idle,
            },
            _ => Task::Idle,
        }
    }

    /// Asks to send the request (see `send_spec` and `send_task`).
    pub fn send(&mut self) -> (t: Task)
        ensures
            final(self)@ == send_spec(old(self)@),
            t@ == send_task(old(self)@),
    {
        if self.is_sending {
            return Task::Idle;
        }
        self.response_scroll = 0;
        self.response = ResponseView { status: None, body: String::new(), headers: Vec::new(), cookies: Vec::new(), error: None };
        self.sending_frame = 0;
        self.is_sending = true;
        assert(self@.response =~= empty_response());
        Task::Send(self.draft.copy())
    }

    /// Takes the outcome of a request: the response received, or the message of the error
    /// that ended it; the client stops waiting.
    pub fn finish_send(&mut self, outcome: Result<ResponseView, String>)
        ensures
            final(self)@ == (AppValue {
                response: match outcome {
                    Ok(r) => r@,
                    Err(m) => ResponseValue { error: Some(m@), ..old(self)@.response },
                },
                is_sending: false,
                ..old(self)@
            }),
    {
        match outcome {
            Ok(r) => {
                self.response = r;
            },
            Err(m) => {
                self.response.error = Some(m);
            },
        }
        self.is_sending = false;
    }

    /// Advances the waiting animation by one frame (wrapping around).
    pub fn sending_tick(&mut self)
        ensures
            final(self)@ == (AppValue { sending_frame: if old(self).sending_frame == usize::MAX { 0 } else { (old(self).sending_frame + 1) as usize }, ..old(self)@ }),
    {
        self.sending_frame = if self.sending_frame == usize::MAX { 0 } else { self.sending_frame + 1 };
    }
}

proof fn lemma_flatten_split_at(cv: Seq<CollectionView>, i: int)
    requires
        0 <= i <= cv.len(),
    ensures
        flatten(cv) == flatten(cv.take(i)) + flatten(cv.skip(i)),
    decreases cv.len() - i,
{
    assert(cv.take(i) + cv.skip(i) =~= cv);
    lemma_flatten_concat(cv.take(i), cv.skip(i));
}

proof fn lemma_flatten_concat(a: Seq<CollectionView>, b: Seq<CollectionView>)
    ensures
        flatten(a + b) == flatten(a) + flatten(b),
    decreases b.len(),
{
    if b.len() == 0 {
        assert(a + b =~= a);
        assert(flatten(b) =~= Seq::<OperationView>::empty());
        assert(flatten(a) + flatten(b) =~= flatten(a));
    } else {
        lemma_flatten_concat(a, b.drop_last());
        assert((a + b).drop_last() =~= a + b.drop_last());
        assert((a + b).last() == b.last());
        assert(flatten(a) + flatten(b) =~= flatten(a) + flatten(b.drop_last()) + b.last().operations);
    }
}

/// Whether no two of the operations share a method and a path.
pub open spec fn distinct_ops(ops: Seq<OperationView>) -> bool {
    forall|j: int, k: int| 0 <= j < k < ops.len() ==> !(ops[j].method == ops[k].method && ops[j].path == ops[k].path)
}

proof fn lemma_op_index_of(ops: Seq<OperationView>, k: int)
    requires
        0 <= k < ops.len(),
        distinct_ops(ops),
    ensures
        op_index(ops, ops[k].method, ops[k].path) == k,
    decreases k,
{
    if k > 0 {
        assert(!(ops[0].method == ops[k].method && ops[0].path == ops[k].path));
        let rest = ops.drop_first();
        assert(distinct_ops(rest)) by {
            assert forall|j: int, l: int| 0 <= j < l < rest.len() implies !(rest[j].method == rest[l].method && rest[j].path == rest[l].path) by {
                assert(rest[j] == ops[j + 1] && rest[l] == ops[l + 1]);
            }
        }
        lemma_op_index_of(rest, k - 1);
        assert(rest[k - 1] == ops[k]);
    }
}

proof fn lemma_op_index_match(ops: Seq<OperationView>, m: HttpMethod, path: Seq<char>)
    ensures
        op_index(ops, m, path) <= ops.len(),
        op_index(ops, m, path) < ops.len() ==> ops[op_index(ops, m, path) as int].method == m
            && ops[op_index(ops, m, path) as int].path == path,
    decreases ops.len(),
{
    if ops.len() > 0 && !(ops[0].method == m && ops[0].path == path) {
        lemma_op_index_match(ops.drop_first(), m, path);
    }
}

/// Down then Up in the collections comes back to the selected operation, unless it is
/// the last one shown (where Down stays put), when no two operations shown share a
/// method and a path.
pub proof fn law_down_then_up_returns(s: AppValue, p: &RataProject)
    requires
        distinct_ops(visible_ops(p.collections_spec(), s.collapsed_tags)),
        s.selected_operation matches Some(sel) && op_index(visible_ops(p.collections_spec(), s.collapsed_tags), sel.0, sel.1) + 1
            < visible_ops(p.collections_spec(), s.collapsed_tags).len(),
    ensures
        step_spec(step_spec(s, Some(p), true).0, Some(p), false).0.selected_operation == s.selected_operation,
{
    let ops = visible_ops(p.collections_spec(), s.collapsed_tags);
    let sel = s.selected_operation->0;
    let i = op_index(ops, sel.0, sel.1) as int;
    lemma_op_index_match(ops, sel.0, sel.1);
    lemma_op_index_of(ops, i + 1);
    let t = step_spec(s, Some(p), true).0;
    assert(t.selected_operation == Some((ops[i + 1].method, ops[i + 1].path)));
    assert(t.collapsed_tags == s.collapsed_tags);
}

proof fn lemma_key_index(rows: Seq<ParamValue>, key: Seq<char>)
    ensures
        key_index(rows, key) <= rows.len(),
        key_index(rows, key) < rows.len() ==> rows[key_index(rows, key) as int].key == key,
    decreases rows.len(),
{
    if rows.len() > 0 && rows[0].key != key {
        lemma_key_index(rows.drop_first(), key);
    }
}

/// Whether the pair at `i` is the last one in `kvs` with its key.
pub open spec fn last_for_key(kvs: Seq<(Seq<char>, Seq<char>)>, i: int) -> bool {
    forall|j: int| i < j < kvs.len() ==> (#[trigger] kvs[j]).0 != kvs[i].0
}

/// Whether some row has the given key and value and is enabled.
pub open spec fn has_enabled_row(rows: Seq<ParamValue>, key: Seq<char>, value: Seq<char>) -> bool {
    exists|k: int| 0 <= k < rows.len() && (#[trigger] rows[k]).key == key && rows[k].value == value && rows[k].enabled
}

proof fn lemma_merge_pairs_set(rows: Seq<ParamValue>, kvs: Seq<(Seq<char>, Seq<char>)>)
    ensures
        forall|i: int| 0 <= i < kvs.len() && last_for_key(kvs, i) ==>
            has_enabled_row(merge_pairs(rows, kvs), (#[trigger] kvs[i]).0, kvs[i].1),
    decreases kvs.len(),
{
    if kvs.len() > 0 {
        let prev = kvs.drop_last();
        let kv = kvs.last();
        lemma_merge_pairs_set(rows, prev);
        let r0 = merge_pairs(rows, prev);
        let r = merge_pairs(rows, kvs);
        lemma_key_index(r0, kv.0);
        let ki = key_index(r0, kv.0) as int;
        assert(r == merge_pair(r0, kv));
        assert forall|i: int| 0 <= i < kvs.len() && last_for_key(kvs, i) implies
            has_enabled_row(r, (#[trigger] kvs[i]).0, kvs[i].1) by {
            if i == kvs.len() - 1 {
                if ki < r0.len() {
                    assert(r[ki].key == kv.0 && r[ki].value == kv.1 && r[ki].enabled);
                } else {
                    assert(r[r0.len() as int].key == kv.0);
                }
            } else {
                assert(kvs[kvs.len() - 1].0 != kvs[i].0);
                assert(prev[i] == kvs[i]);
                assert(last_for_key(prev, i)) by {
                    assert forall|j: int| i < j < prev.len() implies (#[trigger] prev[j]).0 != prev[i].0 by {
                        assert(prev[j] == kvs[j]);
                    }
                }
                assert(has_enabled_row(r0, prev[i].0, prev[i].1));
                let k = choose|k: int| 0 <= k < r0.len() && (#[trigger] r0[k]).key == prev[i].0 && r0[k].value == prev[i].1 && r0[k].enabled;
                if ki < r0.len() {
                    assert(k != ki);
                }
                assert(r[k] == r0[k]);
            }
        }
    }
}

/// Loading an example sets each of its parameters and headers: for every pair (the last
/// one, where a name occurs twice) the table has an enabled row with that name and value,
/// whether the row was there before or is added.
pub proof fn law_loaded_example_sets_its_pairs(d: DraftValue, e: ExampleValue)
    ensures
        e.params matches Some(ps) ==> forall|i: int| 0 <= i < ps.len() && last_for_key(ps, i) ==>
            has_enabled_row(loaded_draft(d, e).params, (#[trigger] ps[i]).0, ps[i].1),
        e.headers matches Some(hs) ==> forall|i: int| 0 <= i < hs.len() && last_for_key(hs, i) ==>
            has_enabled_row(loaded_draft(d, e).headers, (#[trigger] hs[i]).0, hs[i].1),
{
    match e.params {
        Some(ps) => { lemma_merge_pairs_set(d.params, ps); },
        None => {},
    }
    match e.headers {
        Some(hs) => { lemma_merge_pairs_set(d.headers, hs); },
        None => {},
    }
}

proof fn lemma_param_rows_cover(ps: Seq<ParameterView>, headers: bool)
    ensures
        forall|j: int| 0 <= j < ps.len() && ((#[trigger] ps[j]).location == header_label()) == headers ==>
            param_rows(ps, headers).contains(param_row(ps[j])),
        forall|k: int| 0 <= k < param_rows(ps, headers).len() ==> exists|j: int| 0 <= j < ps.len()
            && (ps[j].location == header_label()) == headers && #[trigger] param_rows(ps, headers)[k] == param_row(ps[j]),
    decreases ps.len(),
{
    if ps.len() > 0 {
        let prev = ps.drop_last();
        lemma_param_rows_cover(prev, headers);
        let r0 = param_rows(prev, headers);
        let r = param_rows(ps, headers);
        assert forall|j: int| 0 <= j < ps.len() && ((#[trigger] ps[j]).location == header_label()) == headers implies
            r.contains(param_row(ps[j])) by {
            if j < ps.len() - 1 {
                assert(prev[j] == ps[j]);
                let k = choose|k: int| 0 <= k < r0.len() && r0[k] == param_row(prev[j]);
                assert(r[k] == r0[k]);
            } else {
                assert(r[r.len() - 1] == param_row(ps[j]));
            }
        }
        assert forall|k: int| 0 <= k < r.len() implies exists|j: int| 0 <= j < ps.len()
            && (ps[j].location == header_label()) == headers && #[trigger] r[k] == param_row(ps[j]) by {
            if k < r0.len() {
                assert(r[k] == r0[k]);
                let j = choose|j: int| 0 <= j < prev.len() && (prev[j].location == header_label()) == headers && #[trigger] r0[k] == param_row(prev[j]);
                assert(prev[j] == ps[j]);
            } else {
                assert(r[k] == param_row(ps[ps.len() - 1]));
            }
        }
    }
}

/// Whether a row stands for a parameter of the operation that is not sent as a header:
/// it has the parameter's name and no value, and is enabled when the parameter is required.
pub open spec fn query_param_row(op: OperationView, row: ParamValue) -> bool {
    exists|j: int| 0 <= j < op.parameters.len()
        && op.parameters[j].location != header_label()
        && row.key == #[trigger] op.parameters[j].name
        && row.value.len() == 0
        && row.enabled == op.parameters[j].required
}

/// When an edited URL matches an operation, that operation is selected and the query rows
/// are the ones choosing it from the list gives: one row per parameter not sent as a
/// header, named after it, with no value, enabled when it is required, and no other row.
pub proof fn law_matched_url_fills_rows_as_selection(s: AppValue, project: Option<&RataProject>, op: OperationView)
    requires
        url_match(s, project) == Some(op),
    ensures
        url_edited_spec(s, project).selected_operation == select_spec(s, op).selected_operation,
        url_edited_spec(s, project).draft.params == select_spec(s, op).draft.params,
        forall|j: int| 0 <= j < op.parameters.len() && (#[trigger] op.parameters[j]).location != header_label() ==>
            url_edited_spec(s, project).draft.params.contains(
                ParamValue { key: op.parameters[j].name, value: seq![], enabled: op.parameters[j].required, required: op.parameters[j].required }),
        forall|k: int| 0 <= k < url_edited_spec(s, project).draft.params.len() ==>
            query_param_row(op, #[trigger] url_edited_spec(s, project).draft.params[k]),
{
    lemma_param_rows_cover(op.parameters, false);
    let ps = url_edited_spec(s, project).draft.params;
    assert(ps == param_rows(op.parameters, false));
    assert forall|k: int| 0 <= k < ps.len() implies query_param_row(op, #[trigger] ps[k]) by {
        let j = choose|j: int| 0 <= j < op.parameters.len() && (op.parameters[j].location == header_label()) == false
            && #[trigger] param_rows(op.parameters, false)[k] == param_row(op.parameters[j]);
        assert(ps[k] == param_row(op.parameters[j]));
        assert(op.parameters[j].name == op.parameters[j].name);
    }
}

} // verus!
