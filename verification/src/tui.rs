//! The state of the terminal client: what it shows, the request being edited, the
//! response received, and where the focus is.
use vstd::prelude::*;
use crate::method::HttpMethod;
use crate::panels::Selection;
use crate::project::{RataProject, Operation, OperationView, ExampleFile, CollectionView, flatten, ops_view};

verus! {

/// The colour scheme of the interface.
#[derive(Debug, Clone, Copy, PartialEq, Eq, Structural)]
pub enum Theme {
    Dark,
}

/// What the interface shows besides the request and the response.
#[derive(Debug)]
pub struct TuiModel {
    pub theme: Theme,
    pub collections_title: String,
    pub selected_request_url: String,
    pub examples: Vec<String>,
}

/// A query parameter or a header of the request being edited.
#[derive(Debug)]
pub struct ParamState {
    pub key: String,
    pub value: String,
    pub enabled: bool,
    pub required: bool,
}

/// Which part of a parameter row is being edited.
#[derive(Debug, Clone, Copy, PartialEq, Eq, Structural)]
pub enum ParamEditMode {
    Off,
    Key,
    Value,
}

/// The request being edited.
#[derive(Debug)]
pub struct RequestDraft {
    pub method: HttpMethod,
    pub url: String,
    pub body: String,
    pub params: Vec<ParamState>,
    pub headers: Vec<ParamState>,
}

/// The response received, or the error that ended the request.
#[derive(Debug)]
pub struct ResponseView {
    pub status: Option<u16>,
    pub body: String,
    pub headers: Vec<(String, String)>,
    pub cookies: Vec<String>,
    pub error: Option<String>,
}

/// The tabs of the request panel.
#[derive(Debug, Clone, Copy, PartialEq, Eq, Structural)]
pub enum RequestTab {
    Body,
    Query,
    Headers,
}

/// The tabs of the response panel.
#[derive(Debug, Clone, Copy, PartialEq, Eq, Structural)]
pub enum ResponseTab {
    Body,
    Headers,
    Cookies,
}

/// The panel that has the focus.
#[derive(Debug, Clone, Copy, PartialEq, Eq, Structural)]
pub enum ActiveBlock {
    Nothing,
    Collections,
    Request,
    Params,
    Examples,
    Response,
    MethodDropdown,
}

/// What a drag with the left button acts on.
#[derive(Debug, Clone, Copy, PartialEq, Eq, Structural)]
pub enum DragTarget {
    Nothing,
    Collections,
    Request,
    Response,
    ScrollRequest,
    ScrollResponse,
    ResponseSelection,
    RequestSelection,
    ErrorPopupSelection,
}

/// Whether the client goes on after a key.
#[derive(Debug, Clone, Copy, PartialEq, Eq, Structural)]
pub enum AppAction {
    Quit,
    Continue,
}

/// A rectangle of terminal cells.
#[derive(Debug, Clone, Copy, PartialEq, Eq, Structural)]
pub struct Rect {
    pub x: u16,
    pub y: u16,
    pub width: u16,
    pub height: u16,
}

/// A key as the client reads it: which key, and whether Control was held.
#[derive(Debug, Clone, Copy, PartialEq, Eq, Structural)]
pub enum KeyCode {
    Char(char),
    Enter,
    Esc,
    Tab,
    Backspace,
    Left,
    Right,
    Up,
    Down,
    Home,
    End,
    Other,
}

/// A key press.
#[derive(Debug, Clone, Copy, PartialEq, Eq, Structural)]
pub struct KeyInput {
    pub code: KeyCode,
    pub ctrl: bool,
}

/// What the mouse did.
#[derive(Debug, Clone, Copy, PartialEq, Eq, Structural)]
pub enum MouseKind {
    LeftDown,
    LeftDrag,
    LeftUp,
    ScrollUp,
    ScrollDown,
    Other,
}

/// A mouse event at a cell.
#[derive(Debug, Clone, Copy, PartialEq, Eq, Structural)]
pub struct MouseInput {
    pub kind: MouseKind,
    pub column: u16,
    pub row: u16,
}

/// The contents of an example file: query parameters, headers, and the body as a JSON
/// value.
#[derive(Debug)]
pub struct ExampleData {
    pub params: Option<Vec<(String, String)>>,
    pub headers: Option<Vec<(String, String)>>,
    pub body: Option<crate::refs::JsonValue>,
}

/// Work that a state change asks of the program around the client.
#[derive(Debug)]
pub enum Task {
    /// Nothing to do.
    Idle,
    /// Send this request and hand the outcome to `finish_send`.
    Send(RequestDraft),
    /// List the examples of this operation and hand them to `examples_listed`, with the flag.
    ListExamples(Operation, bool),
    /// List the examples of this operation, find the one with this name with
    /// `find_example`, read it and hand its contents to `load_example`.
    LoadExample(Operation, String),
    /// Put this text on the clipboard.
    Copy(String),
}

/// The state of the client.
#[derive(Debug)]
pub struct TuiApp {
    pub model: TuiModel,
    pub draft: RequestDraft,
    pub response: ResponseView,
    pub active_request_tab: RequestTab,
    pub active_response_tab: ResponseTab,
    pub response_tab_origin: (u16, u16),
    pub collections_area: Rect,
    pub request_area: Rect,
    pub params_area: Rect,
    pub examples_area: Rect,
    pub response_area: Rect,
    pub collapsed_tags: Vec<String>,
    pub active_block: ActiveBlock,
    pub selected_operation: Option<(HttpMethod, String)>,
    pub response_scroll: u16,
    pub collections_width: u16,
    pub request_height: u16,
    pub response_height_percent: u16,
    pub examples_dropdown_open: bool,
    pub wrap_body: bool,
    pub drag_target: DragTarget,
    pub selected_request_row: usize,
    pub editing_param_key: Option<String>,
    pub param_edit_mode: ParamEditMode,
    /// The key and value of the row being edited as they were when the edit began, so
    /// that Escape can put them back.
    pub edit_backup: Option<(String, String)>,
    pub text_cursor: usize,
    pub selected_example_row: usize,
    pub request_scroll: u16,
    pub drag_last_row: Option<u16>,
    pub text_selection: Option<Selection>,
    pub request_selection: Option<Selection>,
    pub method_dropdown_open: bool,
    pub selected_method_row: usize,
    pub method_dropdown_area: Rect,
    pub is_sending: bool,
    pub send_button_area: Rect,
    pub sending_frame: usize,
    pub error_popup: Option<String>,
    pub error_popup_area: Rect,
    /// The process environment, for `{{env:NAME}}` placeholders.
    pub environment: Vec<(String, String)>,
}

// ---------------------------------------------------------------------------
// Abstract values
// ---------------------------------------------------------------------------

pub open spec fn strings_view(v: Seq<String>) -> Seq<Seq<char>> {
    v.map_values(|s: String| s@)
}

pub open spec fn opt_string_view(o: Option<String>) -> Option<Seq<char>> {
    match o {
        Some(s) => Some(s@),
        None => None,
    }
}

#[verifier::ext_equal]
pub struct ModelValue {
    pub theme: Theme,
    pub collections_title: Seq<char>,
    pub selected_request_url: Seq<char>,
    pub examples: Seq<Seq<char>>,
}

impl View for TuiModel {
    type V = ModelValue;

    open spec fn view(&self) -> ModelValue {
        ModelValue {
            theme: self.theme,
            collections_title: self.collections_title@,
            selected_request_url: self.selected_request_url@,
            examples: strings_view(self.examples@),
        }
    }
}

#[verifier::ext_equal]
pub struct ParamValue {
    pub key: Seq<char>,
    pub value: Seq<char>,
    pub enabled: bool,
    pub required: bool,
}

impl View for ParamState {
    type V = ParamValue;

    open spec fn view(&self) -> ParamValue {
        ParamValue { key: self.key@, value: self.value@, enabled: self.enabled, required: self.required }
    }
}

pub open spec fn params_view(v: Seq<ParamState>) -> Seq<ParamValue> {
    v.map_values(|p: ParamState| p@)
}

#[verifier::ext_equal]
pub struct DraftValue {
    pub method: HttpMethod,
    pub url: Seq<char>,
    pub body: Seq<char>,
    pub params: Seq<ParamValue>,
    pub headers: Seq<ParamValue>,
}

impl View for RequestDraft {
    type V = DraftValue;

    open spec fn view(&self) -> DraftValue {
        DraftValue {
            method: self.method,
            url: self.url@,
            body: self.body@,
            params: params_view(self.params@),
            headers: params_view(self.headers@),
        }
    }
}

#[verifier::ext_equal]
pub struct ResponseValue {
    pub status: Option<u16>,
    pub body: Seq<char>,
    pub headers: Seq<(Seq<char>, Seq<char>)>,
    pub cookies: Seq<Seq<char>>,
    pub error: Option<Seq<char>>,
}

impl View for ResponseView {
    type V = ResponseValue;

    open spec fn view(&self) -> ResponseValue {
        ResponseValue {
            status: self.status,
            body: self.body@,
            headers: crate::template::table_view(self.headers@),
            cookies: strings_view(self.cookies@),
            error: opt_string_view(self.error),
        }
    }
}

pub open spec fn selected_view(o: Option<(HttpMethod, String)>) -> Option<(HttpMethod, Seq<char>)> {
    match o {
        Some(p) => Some((p.0, p.1@)),
        None => None,
    }
}

/// The abstract state of the client.
#[verifier::ext_equal]
pub struct AppValue {
    pub model: ModelValue,
    pub draft: DraftValue,
    pub response: ResponseValue,
    pub active_request_tab: RequestTab,
    pub active_response_tab: ResponseTab,
    pub response_tab_origin: (u16, u16),
    pub collections_area: Rect,
    pub request_area: Rect,
    pub params_area: Rect,
    pub examples_area: Rect,
    pub response_area: Rect,
    pub collapsed_tags: Seq<Seq<char>>,
    pub active_block: ActiveBlock,
    pub selected_operation: Option<(HttpMethod, Seq<char>)>,
    pub response_scroll: u16,
    pub collections_width: u16,
    pub request_height: u16,
    pub response_height_percent: u16,
    pub examples_dropdown_open: bool,
    pub wrap_body: bool,
    pub drag_target: DragTarget,
    pub selected_request_row: usize,
    pub editing_param_key: Option<Seq<char>>,
    pub param_edit_mode: ParamEditMode,
    pub edit_backup: Option<(Seq<char>, Seq<char>)>,
    pub text_cursor: usize,
    pub selected_example_row: usize,
    pub request_scroll: u16,
    pub drag_last_row: Option<u16>,
    pub text_selection: Option<Selection>,
    pub request_selection: Option<Selection>,
    pub method_dropdown_open: bool,
    pub selected_method_row: usize,
    pub method_dropdown_area: Rect,
    pub is_sending: bool,
    pub send_button_area: Rect,
    pub sending_frame: usize,
    pub error_popup: Option<Seq<char>>,
    pub error_popup_area: Rect,
    pub environment: Seq<(Seq<char>, Seq<char>)>,
}

impl View for TuiApp {
    type V = AppValue;

    open spec fn view(&self) -> AppValue {
        AppValue {
            model: self.model@,
            draft: self.draft@,
            response: self.response@,
            active_request_tab: self.active_request_tab,
            active_response_tab: self.active_response_tab,
            response_tab_origin: self.response_tab_origin,
            collections_area: self.collections_area,
            request_area: self.request_area,
            params_area: self.params_area,
            examples_area: self.examples_area,
            response_area: self.response_area,
            collapsed_tags: strings_view(self.collapsed_tags@),
            active_block: self.active_block,
            selected_operation: selected_view(self.selected_operation),
            response_scroll: self.response_scroll,
            collections_width: self.collections_width,
            request_height: self.request_height,
            response_height_percent: self.response_height_percent,
            examples_dropdown_open: self.examples_dropdown_open,
            wrap_body: self.wrap_body,
            drag_target: self.drag_target,
            selected_request_row: self.selected_request_row,
            editing_param_key: opt_string_view(self.editing_param_key),
            param_edit_mode: self.param_edit_mode,
            edit_backup: match self.edit_backup {
                Some(b) => Some((b.0@, b.1@)),
                None => None,
            },
            text_cursor: self.text_cursor,
            selected_example_row: self.selected_example_row,
            request_scroll: self.request_scroll,
            drag_last_row: self.drag_last_row,
            text_selection: self.text_selection,
            request_selection: self.request_selection,
            method_dropdown_open: self.method_dropdown_open,
            selected_method_row: self.selected_method_row,
            method_dropdown_area: self.method_dropdown_area,
            is_sending: self.is_sending,
            send_button_area: self.send_button_area,
            sending_frame: self.sending_frame,
            error_popup: opt_string_view(self.error_popup),
            error_popup_area: self.error_popup_area,
            environment: crate::template::table_view(self.environment@),
        }
    }
}

/// The abstract value of a task.
pub enum TaskValue {
    Idle,
    Send(DraftValue),
    ListExamples(OperationView, bool),
    LoadExample(OperationView, Seq<char>),
    Copy(Seq<char>),
}

impl View for Task {
    type V = TaskValue;

    open spec fn view(&self) -> TaskValue {
        match self {
            Task::Idle => TaskValue::Idle,
            Task::Send(d) => TaskValue::Send(d@),
            Task::ListExamples(op, f) => TaskValue::ListExamples(op@, *f),
            Task::LoadExample(op, n) => TaskValue::LoadExample(op@, n@),
            Task::Copy(t) => TaskValue::Copy(t@),
        }
    }
}

// ---------------------------------------------------------------------------
// Rectangles
// ---------------------------------------------------------------------------

impl Rect {
    /// The column just right of the rectangle, saturating at the last column.
    pub open spec fn right_spec(self) -> u16 {
        if self.x + self.width > u16::MAX { u16::MAX } else { (self.x + self.width) as u16 }
    }

    /// Whether a cell lies inside the rectangle.
    pub open spec fn holds(self, x: u16, y: u16) -> bool {
        self.x <= x < self.x + self.width && self.y <= y < self.y + self.height
    }

    /// The empty rectangle at the origin.
    pub fn empty() -> (r: Rect)
        ensures
            r == (Rect { x: 0, y: 0, width: 0, height: 0 }),
    {
        Rect { x: 0, y: 0, width: 0, height: 0 }
    }

    /// The column just right of the rectangle (see `right_spec`).
    pub fn right(self) -> (r: u16)
        ensures
            r == self.right_spec(),
    {
        self.x.saturating_add(self.width)
    }

    /// Whether a cell lies inside the rectangle (see `holds`).
    pub fn contains(self, x: u16, y: u16) -> (r: bool)
        ensures
            r == self.holds(x, y),
    {
        let xe: u32 = self.x as u32 + self.width as u32;
        let ye: u32 = self.y as u32 + self.height as u32;
        x >= self.x && (x as u32) < xe && y >= self.y && (y as u32) < ye
    }
}

// ---------------------------------------------------------------------------
// Copies
// ---------------------------------------------------------------------------

impl ParamState {
    /// A copy of the row.
    pub fn copy(&self) -> (r: ParamState)
        ensures
            r@ == self@,
    {
        ParamState { key: self.key.clone(), value: self.value.clone(), enabled: self.enabled, required: self.required }
    }
}

/// A copy of a list of rows.
pub fn copy_params(v: &Vec<ParamState>) -> (r: Vec<ParamState>)
    ensures
        params_view(r@) == params_view(v@),
{
    let mut out: Vec<ParamState> = Vec::new();
    let mut i: usize = 0;
    while i < v.len()
        invariant
            i <= v.len(),
            params_view(out@) =~= params_view(v@).take(i as int),
        decreases v.len() - i,
    {
        let c = v[i].copy();
        let ghost before = out@;
        out.push(c);
        assert(params_view(out@) =~= params_view(before).push(c@));
        assert(params_view(v@).take(i + 1) =~= params_view(v@).take(i as int).push(v@[i as int]@));
        i += 1;
    }
    assert(params_view(v@).take(v.len() as int) =~= params_view(v@));
    out
}

impl RequestDraft {
    /// A copy of the request.
    pub fn copy(&self) -> (r: RequestDraft)
        ensures
            r@ == self@,
    {
        RequestDraft {
            method: self.method,
            url: self.url.clone(),
            body: self.body.clone(),
            params: copy_params(&self.params),
            headers: copy_params(&self.headers),
        }
    }
}

// ---------------------------------------------------------------------------
// The model and the initial state
// ---------------------------------------------------------------------------

/// The `User-Agent` value the client sends.
pub open spec fn user_agent_spec() -> Seq<char> {
    seq!['r', 'a', 't', 'a', '/', '0', '.', '1', '.', '0']
}

/// The header row every new request starts with: `user-agent: rata/<version>`.
pub open spec fn user_agent_row() -> ParamValue {
    ParamValue {
        key: seq!['u', 's', 'e', 'r', '-', 'a', 'g', 'e', 'n', 't'],
        value: user_agent_spec(),
        enabled: true,
        required: false,
    }
}

/// The header row every new request starts with.
pub fn user_agent_header() -> (r: ParamState)
    ensures
        r@ == user_agent_row(),
{
    proof {
        reveal_strlit("user-agent");
        reveal_strlit("rata/0.1.0");
    }
    ParamState {
        key: String::from_str("user-agent"),
        value: String::from_str("rata/0.1.0"),
        enabled: true,
        required: false,
    }
}

/// The first operation of a project, collection after collection.
pub open spec fn first_operation_spec(cs: Seq<CollectionView>) -> Option<OperationView> {
    if flatten(cs).len() > 0 { Some(flatten(cs)[0]) } else { None }
}

proof fn lemma_flatten_prefix(cs: Seq<CollectionView>, i: int)
    requires
        0 <= i < cs.len(),
        forall|k: int| 0 <= k < i ==> (#[trigger] cs[k]).operations.len() == 0,
    ensures
        flatten(cs.take(i)).len() == 0,
    decreases i,
{
    if i > 0 {
        lemma_flatten_prefix(cs, i - 1);
        assert(cs.take(i).drop_last() =~= cs.take(i - 1));
    }
}

proof fn lemma_flatten_take(cs: Seq<CollectionView>, i: int)
    requires
        0 <= i < cs.len(),
    ensures
        flatten(cs.take(i + 1)) == flatten(cs.take(i)) + cs[i].operations,
{
    assert(cs.take(i + 1).drop_last() =~= cs.take(i));
}

proof fn lemma_flatten_append(a: Seq<CollectionView>, b: Seq<CollectionView>)
    ensures
        flatten(a + b) == flatten(a) + flatten(b),
    decreases b.len(),
{
    if b.len() == 0 {
        assert(a + b =~= a);
        assert(flatten(b) =~= Seq::<OperationView>::empty());
        assert(flatten(a) + flatten(b) =~= flatten(a));
    } else {
        lemma_flatten_append(a, b.drop_last());
        assert((a + b).drop_last() =~= a + b.drop_last());
        assert((a + b).last() == b.last());
        assert(flatten(a) + flatten(b) =~= flatten(a) + flatten(b.drop_last()) + b.last().operations);
    }
}

/// The first operation of the project, collection after collection.
pub fn first_operation(project: &RataProject) -> (r: Option<&Operation>)
    ensures
        match r {
            Some(op) => first_operation_spec(project.collections_spec()) == Some(op@),
            None => first_operation_spec(project.collections_spec()) is None,
        },
{
    let cs = project.collections();
    let ghost cv = project.collections_spec();
    let mut i: usize = 0;
    while i < cs.len()
        invariant
            i <= cs.len(),
            crate::project::collections_view(cs@) == cv,
            cv == project.collections_spec(),
            forall|k: int| 0 <= k < i ==> (#[trigger] cv[k]).operations.len() == 0,
        decreases cs.len() - i,
    {
        assert(cv[i as int] == cs@[i as int]@);
        if cs[i].operations.len() > 0 {
            proof {
                lemma_flatten_prefix(cv, i as int);
                lemma_flatten_take(cv, i as int);
                lemma_flatten_append(cv.take(i + 1), cv.skip(i + 1));
                assert(cv.take(i + 1) + cv.skip(i + 1) =~= cv);
                let f1 = flatten(cv.take(i as int));
                let ops = cv[i as int].operations;
                let f3 = flatten(cv.skip(i + 1));
                assert(flatten(cv) == f1 + ops + f3);
                assert(f1.len() == 0);
                assert(ops.len() > 0);
                assert((f1 + ops + f3)[0] == ops[0]);
                assert(ops == ops_view(cs@[i as int].operations@));
                assert(ops_view(cs@[i as int].operations@)[0] == cs@[i as int].operations@[0]@);
            }
            let r = &cs[i].operations[0];
            assert(r@ == flatten(cv)[0]);
            assert(first_operation_spec(cv) == Some(r@));
            return Some(r);
        }
        i += 1;
    }
    proof {
        if cv.len() > 0 {
            lemma_flatten_prefix(cv, cv.len() - 1);
            lemma_flatten_take(cv, cv.len() - 1);
            assert(cv.take(cv.len() as int) =~= cv);
        } else {
            assert(flatten(cv) =~= Seq::<OperationView>::empty());
        }
    }
    None
}

pub open spec fn names_view(v: Seq<ExampleFile>) -> Seq<Seq<char>> {
    v.map_values(|e: ExampleFile| e.name@)
}

/// The names of a list of examples, in order.
pub fn example_names(examples: &[ExampleFile]) -> (r: Vec<String>)
    ensures
        strings_view(r@) == names_view(examples@),
{
    let mut out: Vec<String> = Vec::new();
    let mut i: usize = 0;
    while i < examples.len()
        invariant
            i <= examples.len(),
            strings_view(out@) =~= names_view(examples@).take(i as int),
        decreases examples.len() - i,
    {
        let n = examples[i].name.clone();
        let ghost before = out@;
        out.push(n);
        assert(strings_view(out@) =~= strings_view(before).push(n@));
        assert(names_view(examples@).take(i + 1) =~= names_view(examples@).take(i as int).push(examples@[i as int].name@));
        i += 1;
    }
    assert(names_view(examples@).take(examples.len() as int) =~= names_view(examples@));
    out
}

/// The literal `{{baseUrl}}`.
pub open spec fn base_url_placeholder() -> Seq<char> {
    seq!['{', '{', 'b', 'a', 's', 'e', 'U', 'r', 'l', '}', '}']
}

/// A text without its trailing slashes.
pub open spec fn trim_trailing_slashes(s: Seq<char>) -> Seq<char>
    decreases s.len(),
{
    if s.len() > 0 && s.last() == '/' {
        trim_trailing_slashes(s.drop_last())
    } else {
        s
    }
}

/// A text without its trailing slashes.
pub fn trim_trailing_slashes_exec(s: &str) -> (r: String)
    ensures
        r@ == trim_trailing_slashes(s@),
{
    let v = crate::text::chars_of(s);
    let mut n: usize = v.len();
    assert(v@.take(n as int) =~= v@);
    while n > 0 && v[n - 1] == '/'
        invariant
            n <= v.len(),
            v@ == s@,
            trim_trailing_slashes(s@) == trim_trailing_slashes(v@.take(n as int)),
        decreases n,
    {
        assert(v@.take(n as int).drop_last() =~= v@.take(n - 1));
        n -= 1;
    }
    crate::text::string_of(&v.as_slice()[0..n])
}

/// The URL shown for the first operation: the project's server without trailing slashes,
/// or `{{baseUrl}}` when the document names no server, followed by the operation's path.
pub open spec fn first_url_spec(server: Option<Seq<char>>, path: Seq<char>) -> Seq<char> {
    match server {
        Some(s) => trim_trailing_slashes(s) + path,
        None => base_url_placeholder() + path,
    }
}

/// The model the interface starts with. `examples` are the examples listed for the
/// project's first operation.
pub open spec fn model_spec(project: Option<&RataProject>, examples: Seq<ExampleFile>) -> ModelValue {
    ModelValue {
        theme: Theme::Dark,
        collections_title: seq!['C', 'o', 'l', 'l', 'e', 'c', 't', 'i', 'o', 'n', 's'],
        selected_request_url: match project {
            Some(p) => match first_operation_spec(p.collections_spec()) {
                Some(op) => first_url_spec(p.server_url_spec(), op.path),
                None => seq![],
            },
            None => seq![],
        },
        examples: match project {
            Some(p) => if first_operation_spec(p.collections_spec()) is Some { names_view(examples) } else { seq![] },
            None => seq![],
        },
    }
}

/// Builds the model the interface starts with (see `model_spec`).
pub fn build_model(project: Option<&RataProject>, examples: &[ExampleFile]) -> (r: TuiModel)
    ensures
        r@ == model_spec(project, examples@),
{
    proof {
        reveal_strlit("Collections");
        reveal_strlit("{{baseUrl}}");
    }
    let title = String::from_str("Collections");
    match project {
        None => TuiModel { theme: Theme::Dark, collections_title: title, selected_request_url: String::new(), examples: Vec::new() },
        Some(p) => match first_operation(p) {
            None => TuiModel { theme: Theme::Dark, collections_title: title, selected_request_url: String::new(), examples: Vec::new() },
            Some(op) => {
                let mut url = match p.server_url() {
                    Some(s) => trim_trailing_slashes_exec(s),
                    None => String::from_str("{{baseUrl}}"),
                };
                url.append(op.path.as_str());
                TuiModel { theme: Theme::Dark, collections_title: title, selected_request_url: url, examples: example_names(examples) }
            },
        },
    }
}


pub open spec fn empty_rect() -> Rect {
    Rect { x: 0, y: 0, width: 0, height: 0 }
}

/// A response with nothing in it.
pub open spec fn empty_response() -> ResponseValue {
    ResponseValue { status: None, body: seq![], headers: seq![], cookies: seq![], error: None }
}

/// The row that the tabs of the response panel stand on until the panel is drawn.
pub open spec fn response_tab_row() -> u16 {
    3
}

/// The state the client starts in, for a project (if any) and the examples listed for its
/// first operation.
pub open spec fn initial_state(project: Option<&RataProject>, examples: Seq<ExampleFile>) -> AppValue {
    let model = model_spec(project, examples);
    let first = match project {
        Some(p) => first_operation_spec(p.collections_spec()),
        None => None,
    };
    AppValue {
        model: model,
        draft: DraftValue {
            method: match first { Some(op) => op.method, None => HttpMethod::Get },
            url: model.selected_request_url,
            body: seq![],
            params: seq![],
            headers: seq![user_agent_row()],
        },
        response: empty_response(),
        active_request_tab: RequestTab::Query,
        active_response_tab: ResponseTab::Body,
        response_tab_origin: (0, response_tab_row()),
        collections_area: empty_rect(),
        request_area: empty_rect(),
        params_area: empty_rect(),
        examples_area: empty_rect(),
        response_area: empty_rect(),
        collapsed_tags: seq![],
        active_block: ActiveBlock::Nothing,
        selected_operation: match first { Some(op) => Some((op.method, op.path)), None => None },
        response_scroll: 0,
        collections_width: 34,
        request_height: 3,
        response_height_percent: 66,
        examples_dropdown_open: false,
        wrap_body: false,
        drag_target: DragTarget::Nothing,
        selected_request_row: 0,
        editing_param_key: None,
        param_edit_mode: ParamEditMode::Off,
        edit_backup: None,
        text_cursor: 0,
        selected_example_row: 0,
        request_scroll: 0,
        drag_last_row: None,
        text_selection: None,
        request_selection: None,
        method_dropdown_open: false,
        selected_method_row: 0,
        method_dropdown_area: empty_rect(),
        is_sending: false,
        send_button_area: empty_rect(),
        sending_frame: 0,
        error_popup: None,
        error_popup_area: empty_rect(),
        environment: seq![],
    }
}

impl TuiApp {
    /// The state the client starts in (see `initial_state`). `examples` are the examples
    /// listed for the project's first operation.
    pub fn new(project: Option<&RataProject>, examples: &[ExampleFile]) -> (r: TuiApp)
        ensures
            r@ == initial_state(project, examples@),
    {
        let model = build_model(project, examples);
        let first = match project {
            Some(p) => first_operation(p),
            None => None,
        };
        let method = match first {
            Some(op) => op.method,
            None => HttpMethod::Get,
        };
        let selected_operation = match first {
            Some(op) => Some((op.method, op.path.clone())),
            None => None,
        };
        let url = model.selected_request_url.clone();
        let headers = vec![user_agent_header()];
        let r = TuiApp {
            model,
            draft: RequestDraft { method, url, body: String::new(), params: Vec::new(), headers },
            response: ResponseView { status: None, body: String::new(), headers: Vec::new(), cookies: Vec::new(), error: None },
            active_request_tab: RequestTab::Query,
            active_response_tab: ResponseTab::Body,
            response_tab_origin: (0, 3),
            collections_area: Rect::empty(),
            request_area: Rect::empty(),
            params_area: Rect::empty(),
            examples_area: Rect::empty(),
            response_area: Rect::empty(),
            collapsed_tags: Vec::new(),
            active_block: ActiveBlock::Nothing,
            selected_operation,
            response_scroll: 0,
            collections_width: 34,
            request_height: 3,
            response_height_percent: 66,
            examples_dropdown_open: false,
            wrap_body: false,
            drag_target: DragTarget::Nothing,
            selected_request_row: 0,
            editing_param_key: None,
            param_edit_mode: ParamEditMode::Off,
            edit_backup: None,
            text_cursor: 0,
            selected_example_row: 0,
            request_scroll: 0,
            drag_last_row: None,
            text_selection: None,
            request_selection: None,
            method_dropdown_open: false,
            selected_method_row: 0,
            method_dropdown_area: Rect::empty(),
            is_sending: false,
            send_button_area: Rect::empty(),
            sending_frame: 0,
            error_popup: None,
            error_popup_area: Rect::empty(),
            environment: Vec::new(),
        };
        assert(r.draft@.headers =~= seq![user_agent_row()]);
        assert(r@ =~= initial_state(project, examples@));
        r
    }
}


impl TuiApp {
    /// Whether the blinking cursor is drawn, `elapsed_millis` after the client started:
    /// during the first half of every second.
    pub fn cursor_visible(&self, elapsed_millis: u128) -> (r: bool)
        ensures
            r == (elapsed_millis % 1000 < 500),
    {
        elapsed_millis % 1000 < 500
    }

    /// Replaces the URL of the request.
    pub fn edit_url(&mut self, url: String)
        ensures
            final(self)@ == (AppValue { draft: DraftValue { url: url@, ..old(self)@.draft }, ..old(self)@ }),
    {
        self.draft.url = url;
    }

    /// Records where the response tab bar was drawn.
    pub fn set_response_tabs_area(&mut self, area: Rect)
        ensures
            final(self)@ == (AppValue { response_tab_origin: (area.x, area.y), ..old(self)@ }),
    {
        self.response_tab_origin = (area.x, area.y);
    }
}

/// The send button: eleven cells wide, on the URL bar's text row, one cell from its
/// right border.
pub fn send_button_rect(url_area: Rect) -> (r: Rect)
    requires
        url_area.y < u16::MAX,
    ensures
        r == (Rect { x: if url_area.right_spec() < 12 { 0 } else { (url_area.right_spec() - 12) as u16 }, y: (url_area.y + 1) as u16, width: 11, height: 1 }),
{
    Rect { x: url_area.right().saturating_sub(12), y: url_area.y + 1, width: 11, height: 1 }
}

/// The examples menu: thirty cells wide, right-aligned one cell inside the URL bar, just
/// below its top border, tall enough for the examples (one to ten rows) and its borders.
pub fn examples_menu_rect(request_area: Rect, examples: usize) -> (r: Rect)
    requires
        request_area.y < u16::MAX,
    ensures
        r == (Rect {
            x: if request_area.right_spec() < 31 { 0 } else { (request_area.right_spec() - 31) as u16 },
            y: (request_area.y + 1) as u16,
            width: 30,
            height: ((if examples < 1 { 1 } else if examples > 10 { 10 } else { examples as int }) + 2) as u16,
        }),
{
    let rows: u16 = if examples < 1 { 1 } else if examples > 10 { 10 } else { examples as u16 };
    Rect { x: request_area.right().saturating_sub(31), y: request_area.y + 1, width: 30, height: rows + 2 }
}

/// The method menu: fifteen cells wide and seven tall, just inside the URL bar's top
/// left corner.
pub fn method_menu_rect(request_area: Rect) -> (r: Rect)
    requires
        request_area.x < u16::MAX,
        request_area.y < u16::MAX,
    ensures
        r == (Rect { x: (request_area.x + 1) as u16, y: (request_area.y + 1) as u16, width: 15, height: 7 }),
{
    Rect { x: request_area.x + 1, y: request_area.y + 1, width: 15, height: 7 }
}

/// The error window: six tenths of the screen in each direction (at least 20 by 10),
/// centred.
pub open spec fn popup_rect_spec(screen: Rect) -> Rect {
    let w = screen.width * 6 / 10;
    let h = screen.height * 6 / 10;
    Rect {
        x: (screen.x + (screen.width - w) / 2) as u16,
        y: (screen.y + (screen.height - h) / 2) as u16,
        width: (if w < 20 { 20 } else { w }) as u16,
        height: (if h < 10 { 10 } else { h }) as u16,
    }
}

/// The error window (see `popup_rect_spec`).
pub fn error_popup_rect(screen: Rect) -> (r: Rect)
    requires
        screen.width * 6 <= u16::MAX,
        screen.height * 6 <= u16::MAX,
        screen.x + screen.width <= u16::MAX,
        screen.y + screen.height <= u16::MAX,
    ensures
        r == popup_rect_spec(screen),
{
    let w = screen.width * 6 / 10;
    let h = screen.height * 6 / 10;
    let x = screen.x + (screen.width - w) / 2;
    let y = screen.y + (screen.height - h) / 2;
    Rect { x, y, width: if w < 20 { 20 } else { w }, height: if h < 10 { 10 } else { h } }
}

} // verus!
