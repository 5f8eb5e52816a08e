//! What each panel shows, as styled spans: the collections list, the URL bar, the tab
//! bars, the parameter tables, the menus, the response titles and the shortcut bar.
use vstd::prelude::*;
use crate::method::{HttpMethod, label_spec, methods_spec};
use crate::project::{RataProject, OperationView, CollectionView, collections_view, ops_view};
use crate::numfmt::{decimal, decimal_spec, lemma_decimal_len};
use crate::look::{Paint, Look, Span, plain, fg, reversed, spans_view, span_view, push_span, cursor_spans_spec, render_with_cursor_spans};
use crate::tabs::{request_tabs_spec, response_tabs_spec, sat_sub16, table_rows};
use crate::keys::in_body;
use crate::tui::{TuiApp, AppValue, ParamValue, ParamState, ActiveBlock, RequestTab, ResponseTab, ParamEditMode, params_view};

verus! {

// ---------------------------------------------------------------------------
// Shared pieces
// ---------------------------------------------------------------------------

/// The colour of a method: GET green, POST yellow, PUT and PATCH blue, DELETE red.
pub open spec fn method_paint(m: HttpMethod) -> Paint {
    match m {
        HttpMethod::Get => Paint::Green,
        HttpMethod::Post => Paint::Yellow,
        HttpMethod::Put => Paint::Blue,
        HttpMethod::Patch => Paint::Blue,
        HttpMethod::Delete => Paint::Red,
    }
}

/// The look of a method label: its colour, bold.
pub open spec fn method_look(m: HttpMethod) -> Look {
    Look { fg: Some(method_paint(m)), bg: None, bold: true, reversed: false }
}

/// The look of a method label (see `method_look`).
pub fn method_style(m: HttpMethod) -> (r: Look)
    ensures
        r == method_look(m),
{
    let p = match m {
        HttpMethod::Get => Paint::Green,
        HttpMethod::Post => Paint::Yellow,
        HttpMethod::Put => Paint::Blue,
        HttpMethod::Patch => Paint::Blue,
        HttpMethod::Delete => Paint::Red,
    };
    Look { fg: Some(p), bg: None, bold: true, reversed: false }
}

pub open spec fn muted() -> Look {
    fg(Paint::Muted)
}

pub open spec fn accent_bold() -> Look {
    Look { fg: Some(Paint::Accent), bg: None, bold: true, reversed: false }
}

/// The colour of a panel's border: the accent when the panel has the focus.
pub open spec fn border_paint_spec(focused: bool) -> Paint {
    if focused { Paint::Accent } else { Paint::Border }
}

/// The colour of a panel's border (see `border_paint_spec`).
pub fn border_paint(focused: bool) -> (r: Paint)
    ensures
        r == border_paint_spec(focused),
{
    if focused { Paint::Accent } else { Paint::Border }
}

/// `n` spaces.
pub open spec fn spaces(n: nat) -> Seq<char> {
    Seq::new(n, |i: int| ' ')
}

/// A text padded with spaces on the right to at least `w` characters.
pub open spec fn pad_right(s: Seq<char>, w: nat) -> Seq<char> {
    if s.len() >= w { s } else { s + spaces((w - s.len()) as nat) }
}

fn spaces_exec(n: usize) -> (r: String)
    ensures
        r@ == spaces(n as nat),
{
    let mut s = String::new();
    let mut i: usize = 0;
    while i < n
        invariant
            i <= n,
            s@ == spaces(i as nat),
        decreases n - i,
    {
        crate::text::push_char(&mut s, ' ');
        assert(spaces((i + 1) as nat) =~= spaces(i as nat).push(' '));
        i += 1;
    }
    s
}

fn pad_right_exec(s: &str, w: usize) -> (r: String)
    ensures
        r@ == pad_right(s@, w as nat),
{
    let n = crate::text::char_count(s);
    let mut out = String::from_str(s);
    if n < w {
        let pad = spaces_exec(w - n);
        out.append(pad.as_str());
    }
    out
}

fn text_span(out: &mut Vec<Span>, text: &str, look: Look)
    ensures
        spans_view(final(out)@) == spans_view(old(out)@).push((text@, look)),
{
    push_span(out, Span { text: String::from_str(text), look });
}

fn owned_span(out: &mut Vec<Span>, text: String, look: Look)
    ensures
        spans_view(final(out)@) == spans_view(old(out)@).push((text@, look)),
{
    push_span(out, Span { text, look });
}

fn append_spans(out: &mut Vec<Span>, more: Vec<Span>)
    ensures
        spans_view(final(out)@) == spans_view(old(out)@) + spans_view(more@),
{
    let ghost start = spans_view(out@);
    let mut rest = more;
    let ghost mv = spans_view(rest@);
    while rest.len() > 0
        invariant
            spans_view(out@) + spans_view(rest@) == start + mv,
        decreases rest.len(),
    {
        let ghost rv = spans_view(rest@);
        let s = rest.remove(0);
        assert(rv[0] == (s.text@, s.look));
        assert(spans_view(rest@) =~= rv.drop_first());
        let ghost b = spans_view(out@);
        push_span(out, s);
        assert(b.push(rv[0]) + rv.drop_first() =~= b + rv);
    }
    assert(spans_view(out@) + Seq::<(Seq<char>, Look)>::empty() =~= spans_view(out@));
}

// ---------------------------------------------------------------------------
// The collections list
// ---------------------------------------------------------------------------

/// The row of an operation: an indent, the method label padded to five characters in
/// the method's colour, and the summary; it is highlighted when it is the selected
/// operation.
pub open spec fn op_row(op: OperationView, sel: Option<(HttpMethod, Seq<char>)>) -> (Seq<(Seq<char>, Look)>, bool) {
    (seq![(seq![' ', ' '], plain()), (pad_right(label_spec(op.method), 5), method_look(op.method)), (op.summary, fg(Paint::Text))],
        sel == Some((op.method, op.path)))
}

/// The rows of the collections: each collection's header (a closed or open mark, then
/// its name and a slash), followed by its operations unless it is collapsed.
pub open spec fn collection_rows(cs: Seq<CollectionView>, collapsed: Seq<Seq<char>>, sel: Option<(HttpMethod, Seq<char>)>)
    -> Seq<(Seq<(Seq<char>, Look)>, bool)>
    decreases cs.len(),
{
    if cs.len() == 0 {
        seq![]
    } else {
        let c = cs[0];
        let closed = collapsed.contains(c.name);
        let header = (seq![(if closed { seq!['\u{25b8}', ' '] } else { seq!['\u{25be}', ' '] }, muted()),
            (c.name.push('/'), accent_bold())], false);
        seq![header] + (if closed { seq![] } else { c.operations.map_values(|o: OperationView| op_row(o, sel)) })
            + collection_rows(cs.drop_first(), collapsed, sel)
    }
}

/// The text shown when there is no project.
pub open spec fn no_project_text() -> Seq<char> {
    seq!['N', 'o', ' ', '.', 'r', 'a', 't', 'a', '/', 'o', 'p', 'e', 'n', 'a', 'p', 'i', '.', 'y', 'a', 'm', 'l', ' ', 'f', 'o', 'u', 'n', 'd']
}

/// The rows of the collections list, or a single muted notice without a project.
pub open spec fn collections_list_spec(project: Option<&RataProject>, s: AppValue) -> Seq<(Seq<(Seq<char>, Look)>, bool)> {
    match project {
        Some(p) => collection_rows(p.collections_spec(), s.collapsed_tags, s.selected_operation),
        None => seq![(seq![(no_project_text(), muted())], false)],
    }
}

/// A row of a list: its spans and whether it is highlighted.
#[derive(Debug)]
pub struct ListRow {
    pub spans: Vec<Span>,
    pub selected: bool,
}

pub open spec fn rows_view(v: Seq<ListRow>) -> Seq<(Seq<(Seq<char>, Look)>, bool)> {
    v.map_values(|r: ListRow| (spans_view(r.spans@), r.selected))
}

fn push_row(out: &mut Vec<ListRow>, spans: Vec<Span>, selected: bool)
    ensures
        rows_view(final(out)@) == rows_view(old(out)@).push((spans_view(spans@), selected)),
{
    let ghost b = rows_view(out@);
    let r = ListRow { spans, selected };
    out.push(r);
    assert(rows_view(out@) =~= b.push((spans_view(r.spans@), selected)));
}

fn operation_row(op: &crate::project::Operation, sel: &Option<(HttpMethod, String)>) -> (r: ListRow)
    ensures
        (spans_view(r.spans@), r.selected) == op_row(op@, crate::tui::selected_view(*sel)),
{
    let mut spans: Vec<Span> = Vec::new();
    proof {
        reveal_strlit("  ");
        assert("  "@ =~= seq![' ', ' ']);
    }
    text_span(&mut spans, "  ", Look { fg: None, bg: None, bold: false, reversed: false });
    owned_span(&mut spans, pad_right_exec(op.method.label(), 5), method_style(op.method));
    owned_span(&mut spans, op.summary.clone(), Look { fg: Some(Paint::Text), bg: None, bold: false, reversed: false });
    let selected = match sel {
        Some(p) => p.0 == op.method && p.1 == op.path,
        None => false,
    };
    assert(spans_view(spans@) =~= op_row(op@, crate::tui::selected_view(*sel)).0);
    ListRow { spans, selected }
}

/// The rows of the collections list (see `collections_list_spec`).
pub fn collections_list(project: Option<&RataProject>, app: &TuiApp) -> (r: Vec<ListRow>)
    ensures
        rows_view(r@) == collections_list_spec(project, app@),
{
    let mut out: Vec<ListRow> = Vec::new();
    let p = match project {
        None => {
            let mut spans: Vec<Span> = Vec::new();
            proof {
                reveal_strlit("No .rata/openapi.yaml found");
                assert("No .rata/openapi.yaml found"@ =~= no_project_text());
            }
            text_span(&mut spans, "No .rata/openapi.yaml found", Look { fg: Some(Paint::Muted), bg: None, bold: false, reversed: false });
            assert(spans_view(spans@) =~= seq![(no_project_text(), muted())]);
            push_row(&mut out, spans, false);
            assert(rows_view(out@) =~= seq![(seq![(no_project_text(), muted())], false)]);
            return out;
        },
        Some(p) => p,
    };
    let cs = p.collections();
    let ghost cv = p.collections_spec();
    let ghost col = app@.collapsed_tags;
    let ghost sel = app@.selected_operation;
    let mut i: usize = 0;
    assert(cv.skip(0) =~= cv);
    assert(rows_view(out@) + collection_rows(cv, col, sel) =~= collection_rows(cv, col, sel));
    while i < cs.len()
        invariant
            i <= cs.len(),
            cv == p.collections_spec(),
            collections_view(cs@) == cv,
            col == app@.collapsed_tags,
            sel == app@.selected_operation,
            rows_view(out@) + collection_rows(cv.skip(i as int), col, sel) == collection_rows(cv, col, sel),
        decreases cs.len() - i,
    {
        let ghost rest = cv.skip(i as int);
        assert(rest[0] == cs@[i as int]@);
        assert(rest.drop_first() =~= cv.skip(i + 1));
        let c = &cs[i];
        let closed = crate::flow::contains_name(&app.collapsed_tags, &c.name);
        let ghost before = rows_view(out@);
        let mut header: Vec<Span> = Vec::new();
        let mut mark = String::new();
        crate::text::push_char(&mut mark, if closed { '\u{25b8}' } else { '\u{25be}' });
        crate::text::push_char(&mut mark, ' ');
        owned_span(&mut header, mark, Look { fg: Some(Paint::Muted), bg: None, bold: false, reversed: false });
        let mut name = c.name.clone();
        crate::text::push_char(&mut name, '/');
        owned_span(&mut header, name, Look { fg: Some(Paint::Accent), bg: None, bold: true, reversed: false });
        proof {
            assert(mark@ =~= if closed { seq!['\u{25b8}', ' '] } else { seq!['\u{25be}', ' '] });
            assert(c.name@ == rest[0].name);
            assert(closed == col.contains(rest[0].name));
            assert(spans_view(header@) =~= seq![(if closed { seq!['\u{25b8}', ' '] } else { seq!['\u{25be}', ' '] }, muted()),
                (rest[0].name.push('/'), accent_bold())]);
        }
        push_row(&mut out, header, false);
        let ghost after_header = rows_view(out@);
        if !closed {
            let mut j: usize = 0;
            while j < c.operations.len()
                invariant
                    j <= c.operations.len(),
                    sel == app@.selected_operation,
                    rows_view(out@) == after_header + ops_view(c.operations@).take(j as int).map_values(|o: OperationView| op_row(o, sel)),
                decreases c.operations.len() - j,
            {
                let row = operation_row(&c.operations[j], &app.selected_operation);
                let ghost b2 = rows_view(out@);
                out.push(row);
                assert(rows_view(out@) =~= b2.push((spans_view(row.spans@), row.selected)));
                assert(ops_view(c.operations@).take(j + 1).map_values(|o: OperationView| op_row(o, sel))
                    =~= ops_view(c.operations@).take(j as int).map_values(|o: OperationView| op_row(o, sel)).push(op_row(c.operations@[j as int]@, sel)));
                j += 1;
            }
            assert(ops_view(c.operations@).take(c.operations.len() as int) =~= ops_view(c.operations@));
        }
        proof {
            let header_v = (seq![(if closed { seq!['\u{25b8}', ' '] } else { seq!['\u{25be}', ' '] }, muted()),
                (rest[0].name.push('/'), accent_bold())], false);
            let ops_part = if closed { Seq::<(Seq<(Seq<char>, Look)>, bool)>::empty() } else { rest[0].operations.map_values(|o: OperationView| op_row(o, sel)) };
            assert(after_header == before.push(header_v));
            assert(rest[0].operations == ops_view(c.operations@));
            assert(rows_view(out@) =~= before + seq![header_v] + ops_part);
            assert(collection_rows(rest, col, sel) == seq![header_v] + ops_part + collection_rows(rest.drop_first(), col, sel));
            assert(rows_view(out@) + collection_rows(cv.skip(i + 1), col, sel) =~= before + collection_rows(rest, col, sel));
        }
        i += 1;
    }
    assert(cv.skip(cs.len() as int) =~= Seq::<CollectionView>::empty());
    assert(rows_view(out@) + Seq::<(Seq<(Seq<char>, Look)>, bool)>::empty() =~= rows_view(out@));
    out
}


// ---------------------------------------------------------------------------
// The URL bar
// ---------------------------------------------------------------------------

/// The text shown for the URL: the URL, or a notice when it is empty.
pub open spec fn url_text(s: AppValue) -> Seq<char> {
    if s.draft.url.len() == 0 {
        seq!['N', 'o', ' ', 'r', 'e', 'q', 'u', 'e', 's', 't', ' ', 's', 'e', 'l', 'e', 'c', 't', 'e', 'd']
    } else {
        s.draft.url
    }
}

/// The method button: the label between spaces, with the menu's open or closed mark.
pub open spec fn method_button(s: AppValue) -> Seq<char> {
    seq![' '] + label_spec(s.draft.method) + seq![' ', if s.method_dropdown_open { '\u{25b4}' } else { '\u{25be}' }, ' ']
}

pub open spec fn on_selected_bg(p: Option<Paint>) -> Look {
    Look { fg: p, bg: Some(Paint::SelectedBg), bold: false, reversed: false }
}

/// The frames of the waiting animation.
pub open spec fn frames() -> Seq<char> {
    seq!['\u{280b}', '\u{2819}', '\u{2839}', '\u{2838}', '\u{283c}', '\u{2834}', '\u{2826}', '\u{2827}', '\u{2807}', '\u{280f}']
}

/// The send button: the current frame of the animation while sending, then the label.
pub open spec fn send_button(s: AppValue) -> Seq<(Seq<char>, Look)> {
    let label = seq![' ', ' ', 'S', 'E', 'N', 'D', ' ', ' '];
    if s.is_sending {
        seq![(seq![frames()[(s.sending_frame % 10) as int]], on_selected_bg(Some(Paint::TermGreen))),
            (label, Look { fg: Some(Paint::TermYellow), bg: Some(Paint::SelectedBg), bold: true, reversed: false })]
    } else {
        seq![(seq![' '], on_selected_bg(None)),
            (label, Look { fg: Some(Paint::TermWhite), bg: Some(Paint::Accent), bold: true, reversed: false })]
    }
}

/// The cells left on the URL bar's text row after the method, the URL and their padding.
pub open spec fn url_room(s: AppValue) -> u16 {
    let occupied = method_button(s).len() + 3 + url_text(s).len();
    sat_sub16(sat_sub16(s.request_area.width as int, 2) as int, (occupied % 65536) as int)
}

/// The start of the URL bar's text row: the method button in the method's colour.
pub open spec fn url_head_spec(s: AppValue) -> Seq<(Seq<char>, Look)> {
    seq![
        (method_button(s), Look { fg: Some(method_paint(s.draft.method)), bg: Some(Paint::SelectedBg), bold: true, reversed: false }),
        (seq![' '], plain()),
        (seq![' '], on_selected_bg(Some(Paint::Text))),
    ]
}

/// The URL, with the cursor when it is being edited and `show_cursor`, and a space.
pub open spec fn url_body_spec(s: AppValue, show_cursor: bool) -> Seq<(Seq<char>, Look)> {
    let base = on_selected_bg(Some(Paint::Text));
    (if s.active_block == ActiveBlock::Request {
        cursor_spans_spec(url_text(s), if show_cursor { Some(s.text_cursor) } else { None }, base)
    } else {
        seq![(url_text(s), base)]
    }) + seq![(seq![' '], base)]
}

/// The end of the URL bar's text row: the send button pushed to the right when there is
/// room for it, else padding only.
pub open spec fn url_tail_spec(s: AppValue) -> Seq<(Seq<char>, Look)> {
    let room = url_room(s);
    if room >= 12 {
        seq![(spaces((room - 11) as nat), on_selected_bg(None))] + send_button(s)
    } else if room > 0 {
        seq![(spaces(room as nat), on_selected_bg(None))]
    } else {
        seq![]
    }
}

/// The URL bar's text row.
pub open spec fn url_line_spec(s: AppValue, show_cursor: bool) -> Seq<(Seq<char>, Look)> {
    url_head_spec(s) + url_body_spec(s, show_cursor) + url_tail_spec(s)
}

/// The title of the examples menu's toggle.
pub open spec fn examples_toggle_spec(open: bool) -> Seq<char> {
    seq![' ', 'E', 'x', 'a', 'm', 'p', 'l', 'e', 's', ' ', if open { '\u{25b4}' } else { '\u{25be}' }, ' ']
}

/// The title of the examples menu's toggle (see `examples_toggle_spec`).
pub fn examples_toggle(open: bool) -> (r: String)
    ensures
        r@ == examples_toggle_spec(open),
{
    let mut t = String::from_str(" Examples ");
    crate::text::push_char(&mut t, if open { '\u{25b4}' } else { '\u{25be}' });
    crate::text::push_char(&mut t, ' ');
    proof {
        reveal_strlit(" Examples ");
    }
    assert(t@ =~= examples_toggle_spec(open));
    t
}

impl TuiApp {
    fn url_shown(&self) -> (r: String)
        ensures
            r@ == url_text(self@),
    {
        proof {
            reveal_strlit("No request selected");
        }
        if crate::text::char_count(self.draft.url.as_str()) == 0 {
            let r = String::from_str("No request selected");
            assert(r@ =~= url_text(self@));
            r
        } else {
            self.draft.url.clone()
        }
    }

    fn method_button_text(&self) -> (r: String)
        ensures
            r@ == method_button(self@),
            r@.len() <= 9,
    {
        let mut button = String::from_str(" ");
        proof {
            reveal_strlit(" ");
        }
        button.append(self.draft.method.label());
        crate::text::push_char(&mut button, ' ');
        crate::text::push_char(&mut button, if self.method_dropdown_open { '\u{25b4}' } else { '\u{25be}' });
        crate::text::push_char(&mut button, ' ');
        assert(button@ =~= method_button(self@));
        button
    }

    fn url_head(&self) -> (r: Vec<Span>)
        ensures
            spans_view(r@) == url_head_spec(self@),
    {
        proof {
            reveal_strlit(" ");
            assert(" "@ =~= seq![' ']);
        }
        let mut out: Vec<Span> = Vec::new();
        let look = method_style(self.draft.method);
        owned_span(&mut out, self.method_button_text(), Look { bg: Some(Paint::SelectedBg), ..look });
        text_span(&mut out, " ", Look { fg: None, bg: None, bold: false, reversed: false });
        text_span(&mut out, " ", Look { fg: Some(Paint::Text), bg: Some(Paint::SelectedBg), bold: false, reversed: false });
        assert(spans_view(out@) =~= url_head_spec(self@));
        out
    }

    fn url_body(&self, show_cursor: bool) -> (r: Vec<Span>)
        ensures
            spans_view(r@) == url_body_spec(self@, show_cursor),
    {
        proof {
            reveal_strlit(" ");
            assert(" "@ =~= seq![' ']);
        }
        let base = Look { fg: Some(Paint::Text), bg: Some(Paint::SelectedBg), bold: false, reversed: false };
        let url = self.url_shown();
        let mut out: Vec<Span> = Vec::new();
        if self.active_block == ActiveBlock::Request {
            let spans = render_with_cursor_spans(url.as_str(), if show_cursor { Some(self.text_cursor) } else { None }, base);
            append_spans(&mut out, spans);
        } else {
            owned_span(&mut out, url, base);
        }
        text_span(&mut out, " ", base);
        assert(spans_view(out@) =~= url_body_spec(self@, show_cursor));
        out
    }

    fn url_room_exec(&self) -> (r: u16)
        ensures
            r == url_room(self@),
    {
        let url = self.url_shown();
        let button = self.method_button_text();
        let button_len = crate::text::char_count(button.as_str());
        let url_len = crate::text::char_count(url.as_str());
        let occupied: usize = button_len + 3 + url_len;
        assert(occupied as u16 == occupied % 65536) by (bit_vector);
        self.request_area.width.saturating_sub(2).saturating_sub(occupied as u16)
    }

    fn url_tail(&self) -> (r: Vec<Span>)
        ensures
            spans_view(r@) == url_tail_spec(self@),
    {
        proof {
            reveal_strlit(" ");
            reveal_strlit("  SEND  ");
            assert(" "@ =~= seq![' ']);
            assert("  SEND  "@ =~= seq![' ', ' ', 'S', 'E', 'N', 'D', ' ', ' ']);
        }
        let room = self.url_room_exec();
        let mut out: Vec<Span> = Vec::new();
        if room >= 12 {
            owned_span(&mut out, spaces_exec((room - 11) as usize), Look { fg: None, bg: Some(Paint::SelectedBg), bold: false, reversed: false });
            if self.is_sending {
                let fs = vec!['\u{280b}', '\u{2819}', '\u{2839}', '\u{2838}', '\u{283c}', '\u{2834}', '\u{2826}', '\u{2827}', '\u{2807}', '\u{280f}'];
                assert(fs@ =~= frames());
                let mut f = String::new();
                crate::text::push_char(&mut f, fs[self.sending_frame % 10]);
                assert(f@ =~= seq![frames()[(self.sending_frame % 10) as int]]);
                owned_span(&mut out, f, Look { fg: Some(Paint::TermGreen), bg: Some(Paint::SelectedBg), bold: false, reversed: false });
                text_span(&mut out, "  SEND  ", Look { fg: Some(Paint::TermYellow), bg: Some(Paint::SelectedBg), bold: true, reversed: false });
            } else {
                text_span(&mut out, " ", Look { fg: None, bg: Some(Paint::SelectedBg), bold: false, reversed: false });
                text_span(&mut out, "  SEND  ", Look { fg: Some(Paint::TermWhite), bg: Some(Paint::Accent), bold: true, reversed: false });
            }
        } else if room > 0 {
            owned_span(&mut out, spaces_exec(room as usize), Look { fg: None, bg: Some(Paint::SelectedBg), bold: false, reversed: false });
        }
        assert(spans_view(out@) =~= url_tail_spec(self@));
        out
    }

    /// The URL bar's text row (see `url_line_spec`).
    pub fn url_line(&self, show_cursor: bool) -> (r: Vec<Span>)
        ensures
            spans_view(r@) == url_line_spec(self@, show_cursor),
    {
        let mut out = self.url_head();
        append_spans(&mut out, self.url_body(show_cursor));
        append_spans(&mut out, self.url_tail());
        out
    }
}


// ---------------------------------------------------------------------------
// The request panel
// ---------------------------------------------------------------------------

/// The look of a tab label: the accent in bold when it is the active tab, muted otherwise.
pub open spec fn tab_look(active: bool) -> Look {
    if active { accent_bold() } else { muted() }
}

/// The request panel's tab bar: the three labels separated by muted dots.
pub open spec fn request_tab_line_spec(s: AppValue) -> Seq<(Seq<char>, Look)> {
    let t = request_tabs_spec(s);
    seq![
        (t[0], tab_look(s.active_request_tab == RequestTab::Query)),
        (seq!['\u{b7}'], muted()),
        (t[1], tab_look(s.active_request_tab == RequestTab::Body)),
        (seq!['\u{b7}'], muted()),
        (t[2], tab_look(s.active_request_tab == RequestTab::Headers)),
    ]
}

/// A row of a parameter table as it is shown.
#[derive(Debug)]
pub struct TableRow {
    pub checkbox: String,
    pub required: bool,
    pub key: Vec<Span>,
    pub value: Vec<Span>,
    pub selected: bool,
}

pub struct TableRowValue {
    pub checkbox: Seq<char>,
    pub required: bool,
    pub key: Seq<(Seq<char>, Look)>,
    pub value: Seq<(Seq<char>, Look)>,
    pub selected: bool,
}

pub open spec fn table_row_view(r: TableRow) -> TableRowValue {
    TableRowValue { checkbox: r.checkbox@, required: r.required, key: spans_view(r.key@), value: spans_view(r.value@), selected: r.selected }
}

pub open spec fn table_rows_view(v: Seq<TableRow>) -> Seq<TableRowValue> {
    v.map_values(|r: TableRow| table_row_view(r))
}

/// A cell of a row: the text with the cursor when it is the part being edited of the
/// selected row and `show_cursor`, else the text as one plain span.
pub open spec fn cell_spec(s: AppValue, i: int, text: Seq<char>, mode: ParamEditMode, show_cursor: bool) -> Seq<(Seq<char>, Look)> {
    if s.active_block == ActiveBlock::Params && s.param_edit_mode == mode && i == s.selected_request_row {
        cursor_spans_spec(text, if show_cursor { Some(s.text_cursor) } else { None }, plain())
    } else {
        seq![(text, plain())]
    }
}

/// A row of the active table as it is shown: a checkbox (muted when the row is required),
/// the key and the value (see `cell_spec`), highlighted when it is the selected row.
pub open spec fn table_row_spec(s: AppValue, i: int, p: ParamValue, show_cursor: bool) -> TableRowValue {
    TableRowValue {
        checkbox: if p.enabled { seq!['[', 'x', ']'] } else { seq!['[', ' ', ']'] },
        required: p.required,
        key: cell_spec(s, i, p.key, ParamEditMode::Key, show_cursor),
        value: cell_spec(s, i, p.value, ParamEditMode::Value, show_cursor),
        selected: s.active_block == ActiveBlock::Params && i == s.selected_request_row,
    }
}

/// Whether the "add" row at the end of the table is highlighted.
pub open spec fn add_row_selected(s: AppValue) -> bool {
    s.active_block == ActiveBlock::Params && s.selected_request_row == table_rows(s).len()
}

/// The label of the "add" row: muted, on the highlight colour when the row is
/// highlighted.
pub open spec fn add_row_label_spec(s: AppValue) -> (Seq<char>, Look) {
    (if s.active_request_tab == RequestTab::Headers {
        seq!['<', 'A', 'd', 'd', ' ', 'n', 'e', 'w', ' ', 'h', 'e', 'a', 'd', 'e', 'r', '.', '.', '.', '>']
    } else {
        seq!['<', 'A', 'd', 'd', ' ', 'n', 'e', 'w', ' ', 'q', 'u', 'e', 'r', 'y', '.', '.', '.', '>']
    },
    Look { fg: Some(Paint::Muted), bg: if add_row_selected(s) { Some(Paint::SelectedBg) } else { None }, bold: false, reversed: false })
}

/// The text of the request body panel: the body, or a notice when it is empty and not
/// being edited.
pub open spec fn body_text_spec(s: AppValue) -> Seq<char> {
    if s.draft.body.len() == 0 && !in_body(s) {
        seq!['N', 'o', ' ', 'r', 'e', 'q', 'u', 'e', 's', 't', ' ', 'b', 'o', 'd', 'y']
    } else {
        s.draft.body
    }
}

// ---------------------------------------------------------------------------
// Menus
// ---------------------------------------------------------------------------

/// The rows of the examples menu: a bullet and each name, the chosen one highlighted
/// while the menu has the focus; a muted notice when there are none.
pub open spec fn example_rows_spec(s: AppValue) -> Seq<(Seq<(Seq<char>, Look)>, bool)> {
    if s.model.examples.len() == 0 {
        seq![(seq![(seq!['N', 'o', ' ', 'e', 'x', 'a', 'm', 'p', 'l', 'e', 's'], muted())], false)]
    } else {
        Seq::new(s.model.examples.len(), |i: int|
            (seq![(seq!['\u{2022}', ' '], fg(Paint::Accent)), (s.model.examples[i], fg(Paint::Text))],
                s.active_block == ActiveBlock::Examples && i == s.selected_example_row))
    }
}

/// The rows of the method menu: each label after a space, padded to six characters, in
/// the method's colour; the chosen one on the highlight background while the menu has
/// the focus.
pub open spec fn method_rows_spec(s: AppValue) -> Seq<(Seq<char>, Look)> {
    Seq::new(5, |i: int| {
        let m = methods_spec()[i];
        (seq![' '] + pad_right(label_spec(m), 6),
            Look { bg: if s.active_block == ActiveBlock::MethodDropdown && i == s.selected_method_row { Some(Paint::SelectedBg) } else { None },
                ..method_look(m) })
    })
}

// ---------------------------------------------------------------------------
// The response panel
// ---------------------------------------------------------------------------

/// The response panel's tab bar: the labels separated by muted dots, the active one in
/// the accent, between spaces.
pub open spec fn response_tab_line_spec(s: AppValue) -> Seq<(Seq<char>, Look)> {
    let t = response_tabs_spec(s.response);
    let dot = (seq![' ', '\u{b7}', ' '], muted());
    seq![(seq![' '], plain()),
        (t[0], tab_look(s.active_response_tab == ResponseTab::Body)), dot,
        (t[1], tab_look(s.active_response_tab == ResponseTab::Headers)), dot,
        (t[2], tab_look(s.active_response_tab == ResponseTab::Cookies)),
        (seq![' '], plain())]
}

/// The colour of a status code: success green, redirection blue, client errors yellow,
/// server errors red, anything else muted.
pub open spec fn status_paint_spec(status: u16) -> Paint {
    if 200 <= status <= 299 {
        Paint::Green
    } else if 300 <= status <= 399 {
        Paint::Blue
    } else if 400 <= status <= 499 {
        Paint::Yellow
    } else if 500 <= status <= 599 {
        Paint::Red
    } else {
        Paint::Muted
    }
}

/// The response panel's right title: "Response", then the status in its colour when a
/// response arrived.
pub open spec fn status_line_spec(s: AppValue) -> Seq<(Seq<char>, Look)> {
    let head = seq![(seq![' '], plain()), (seq!['R', 'e', 's', 'p', 'o', 'n', 's', 'e'], fg(Paint::TermWhite))];
    let mid = match s.response.status {
        Some(st) => seq![(seq![' ', '\u{b7}', ' '], muted()),
            (seq!['H', 'T', 'T', 'P', ' '] + decimal_spec(st as nat), Look { fg: Some(status_paint_spec(st)), bg: None, bold: true, reversed: false })],
        None => seq![],
    };
    head + mid + seq![(seq![' '], plain())]
}

// ---------------------------------------------------------------------------
// The shortcut bar
// ---------------------------------------------------------------------------

/// The shortcuts shown: quit, send, edit (on a table), and wrap or unwrap.
pub open spec fn shortcuts_spec(s: AppValue) -> Seq<(char, Seq<char>)> {
    seq![('q', seq!['Q', 'U', 'I', 'T']), ('s', seq!['S', 'E', 'N', 'D'])]
        + (if s.active_block == ActiveBlock::Params && s.active_request_tab != RequestTab::Body { seq![('e', seq!['E', 'D', 'I', 'T'])] } else { seq![] })
        + seq![('w', if s.wrap_body { seq!['U', 'N', 'W', 'R', 'A', 'P'] } else { seq!['W', 'R', 'A', 'P'] })]
}

/// The background of the `k`-th shortcut: the two shades alternate.
pub open spec fn shortcut_bg(k: int) -> Paint {
    if k % 2 == 0 { Paint::SelectedBg } else { Paint::Border }
}

/// The spans of the shortcuts from the `k`-th: the key in green and bold, the name in
/// upper case between spaces, and a separator whose background is the next shortcut's
/// (the panel's after the last).
pub open spec fn shortcut_spans(sc: Seq<(char, Seq<char>)>, k: int) -> Seq<(Seq<char>, Look)>
    decreases sc.len() - k,
{
    if k >= sc.len() || k < 0 {
        seq![]
    } else {
        let bg = shortcut_bg(k);
        let next = if k == sc.len() - 1 { Paint::Panel } else { shortcut_bg(k + 1) };
        seq![(seq![sc[k].0], Look { fg: Some(Paint::Green), bg: Some(bg), bold: true, reversed: false }),
            (seq![' '] + sc[k].1 + seq![' '], Look { fg: Some(Paint::Text), bg: Some(bg), bold: false, reversed: false }),
            (seq!['\u{e0b0}', ' '], Look { fg: Some(bg), bg: Some(next), bold: false, reversed: false })]
            + shortcut_spans(sc, k + 1)
    }
}

/// The shortcut bar: a "Ctrl" badge and the shortcuts.
pub open spec fn shortcut_bar_spec(s: AppValue) -> Seq<(Seq<char>, Look)> {
    seq![(seq![' ', 'C', 't', 'r', 'l', ' '], Look { fg: Some(Paint::Panel), bg: Some(Paint::Accent), bold: true, reversed: false }),
        (seq!['\u{e0b0}', ' '], Look { fg: Some(Paint::Accent), bg: Some(Paint::SelectedBg), bold: false, reversed: false })]
        + shortcut_spans(shortcuts_spec(s), 0)
}


fn tab_style(active: bool) -> (r: Look)
    ensures
        r == tab_look(active),
{
    if active {
        Look { fg: Some(Paint::Accent), bg: None, bold: true, reversed: false }
    } else {
        Look { fg: Some(Paint::Muted), bg: None, bold: false, reversed: false }
    }
}

fn cell(app: &TuiApp, i: usize, text: &String, mode: ParamEditMode, show_cursor: bool) -> (r: Vec<Span>)
    ensures
        spans_view(r@) == cell_spec(app@, i as int, text@, mode, show_cursor),
{
    let base = Look { fg: None, bg: None, bold: false, reversed: false };
    if app.active_block == ActiveBlock::Params && app.param_edit_mode == mode && i == app.selected_request_row {
        render_with_cursor_spans(text.as_str(), if show_cursor { Some(app.text_cursor) } else { None }, base)
    } else {
        let mut out: Vec<Span> = Vec::new();
        owned_span(&mut out, text.clone(), base);
        assert(spans_view(out@) =~= seq![(text@, plain())]);
        out
    }
}

impl TuiApp {
    /// The request panel's tab bar (see `request_tab_line_spec`).
    pub fn request_tab_line(&self) -> (r: Vec<Span>)
        ensures
            spans_view(r@) == request_tab_line_spec(self@),
    {
        let t = self.request_tabs();
        assert(crate::tui::strings_view(t@).len() == 3);
        let mut out: Vec<Span> = Vec::new();
        let mut dot = String::new();
        crate::text::push_char(&mut dot, '\u{b7}');
        let mut dot2 = String::new();
        crate::text::push_char(&mut dot2, '\u{b7}');
        owned_span(&mut out, t[0].clone(), tab_style(self.active_request_tab == RequestTab::Query));
        owned_span(&mut out, dot, Look { fg: Some(Paint::Muted), bg: None, bold: false, reversed: false });
        owned_span(&mut out, t[1].clone(), tab_style(self.active_request_tab == RequestTab::Body));
        owned_span(&mut out, dot2, Look { fg: Some(Paint::Muted), bg: None, bold: false, reversed: false });
        owned_span(&mut out, t[2].clone(), tab_style(self.active_request_tab == RequestTab::Headers));
        proof {
            assert(crate::tui::strings_view(t@)[0] == t@[0]@);
            assert(crate::tui::strings_view(t@)[1] == t@[1]@);
            assert(crate::tui::strings_view(t@)[2] == t@[2]@);
        }
        assert(spans_view(out@) =~= request_tab_line_spec(self@));
        out
    }

    /// The rows of the active table (see `table_row_spec`); the "add" row is not among
    /// them (see `add_row_selected`).
    pub fn table_view_rows(&self, show_cursor: bool) -> (r: Vec<TableRow>)
        ensures
            table_rows_view(r@).len() == table_rows(self@).len(),
            forall|i: int| 0 <= i < table_rows(self@).len() ==>
                #[trigger] table_rows_view(r@)[i] == table_row_spec(self@, i, table_rows(self@)[i], show_cursor),
    {
        let rows = if self.active_request_tab == RequestTab::Query { &self.draft.params } else { &self.draft.headers };
        assert(params_view(rows@) == table_rows(self@));
        let mut out: Vec<TableRow> = Vec::new();
        let mut i: usize = 0;
        while i < rows.len()
            invariant
                i <= rows.len(),
                params_view(rows@) == table_rows(self@),
                table_rows_view(out@).len() == i,
                forall|k: int| 0 <= k < i ==> #[trigger] table_rows_view(out@)[k] == table_row_spec(self@, k, table_rows(self@)[k], show_cursor),
            decreases rows.len() - i,
        {
            let p = &rows[i];
            assert(table_rows(self@)[i as int] == p@);
            proof {
                reveal_strlit("[x]");
                reveal_strlit("[ ]");
                assert("[x]"@ =~= seq!['[', 'x', ']']);
                assert("[ ]"@ =~= seq!['[', ' ', ']']);
            }
            let row = TableRow {
                checkbox: String::from_str(if p.enabled { "[x]" } else { "[ ]" }),
                required: p.required,
                key: cell(self, i, &p.key, ParamEditMode::Key, show_cursor),
                value: cell(self, i, &p.value, ParamEditMode::Value, show_cursor),
                selected: self.active_block == ActiveBlock::Params && i == self.selected_request_row,
            };
            assert(row.checkbox@ == (if p.enabled { seq!['[', 'x', ']'] } else { seq!['[', ' ', ']'] }));
            let ghost before = table_rows_view(out@);
            out.push(row);
            assert(table_rows_view(out@) =~= before.push(table_row_view(row)));
            i += 1;
        }
        out
    }

    /// Whether the "add" row is highlighted (see `add_row_selected`).
    pub fn add_row_highlighted(&self) -> (r: bool)
        ensures
            r == add_row_selected(self@),
    {
        let n = if self.active_request_tab == RequestTab::Query { self.draft.params.len() } else { self.draft.headers.len() };
        self.active_block == ActiveBlock::Params && self.selected_request_row == n
    }

    /// The label of the "add" row at the end of the table (see `add_row_label_spec`).
    pub fn add_row_label(&self) -> (r: Span)
        ensures
            span_view(r) == add_row_label_spec(self@),
    {
        proof {
            reveal_strlit("<Add new header...>");
            reveal_strlit("<Add new query...>");
        }
        let text = if self.active_request_tab == RequestTab::Headers {
            String::from_str("<Add new header...>")
        } else {
            String::from_str("<Add new query...>")
        };
        let hl = self.add_row_highlighted();
        let r = Span { text, look: Look { fg: Some(Paint::Muted), bg: if hl { Some(Paint::SelectedBg) } else { None }, bold: false, reversed: false } };
        assert(span_view(r).0 =~= add_row_label_spec(self@).0);
        r
    }

    /// The text of the request body panel (see `body_text_spec`).
    pub fn body_text(&self) -> (r: String)
        ensures
            r@ == body_text_spec(self@),
    {
        proof {
            reveal_strlit("No request body");
        }
        let editing = self.active_block == ActiveBlock::Params && self.active_request_tab == RequestTab::Body;
        if crate::text::char_count(self.draft.body.as_str()) == 0 && !editing {
            let r = String::from_str("No request body");
            assert(r@ =~= body_text_spec(self@));
            r
        } else {
            self.draft.body.clone()
        }
    }

    /// The rows of the examples menu (see `example_rows_spec`).
    pub fn example_rows(&self) -> (r: Vec<ListRow>)
        ensures
            rows_view(r@) == example_rows_spec(self@),
    {
        let mut out: Vec<ListRow> = Vec::new();
        if self.model.examples.len() == 0 {
            proof {
                reveal_strlit("No examples");
                assert("No examples"@ =~= seq!['N', 'o', ' ', 'e', 'x', 'a', 'm', 'p', 'l', 'e', 's']);
            }
            let mut spans: Vec<Span> = Vec::new();
            text_span(&mut spans, "No examples", Look { fg: Some(Paint::Muted), bg: None, bold: false, reversed: false });
            assert(spans_view(spans@) =~= seq![(seq!['N', 'o', ' ', 'e', 'x', 'a', 'm', 'p', 'l', 'e', 's'], muted())]);
            assert(self@.model.examples.len() == 0);
            push_row(&mut out, spans, false);
            assert(rows_view(out@) =~= example_rows_spec(self@));
            return out;
        }
        let mut i: usize = 0;
        while i < self.model.examples.len()
            invariant
                i <= self.model.examples.len(),
                self.model.examples@.len() > 0,
                rows_view(out@) =~= example_rows_spec(self@).take(i as int),
            decreases self.model.examples.len() - i,
        {
            let mut spans: Vec<Span> = Vec::new();
            let mut bullet = String::new();
            crate::text::push_char(&mut bullet, '\u{2022}');
            crate::text::push_char(&mut bullet, ' ');
            assert(bullet@ =~= seq!['\u{2022}', ' ']);
            owned_span(&mut spans, bullet, Look { fg: Some(Paint::Accent), bg: None, bold: false, reversed: false });
            owned_span(&mut spans, self.model.examples[i].clone(), Look { fg: Some(Paint::Text), bg: None, bold: false, reversed: false });
            let sel = self.active_block == ActiveBlock::Examples && i == self.selected_example_row;
            assert(self@.model.examples[i as int] == self.model.examples@[i as int]@);
            assert(spans_view(spans@) =~= example_rows_spec(self@)[i as int].0);
            push_row(&mut out, spans, sel);
            assert(example_rows_spec(self@).take(i + 1) =~= example_rows_spec(self@).take(i as int).push(example_rows_spec(self@)[i as int]));
            i += 1;
        }
        assert(example_rows_spec(self@).take(i as int) =~= example_rows_spec(self@));
        out
    }

    /// The rows of the method menu (see `method_rows_spec`).
    pub fn method_rows(&self) -> (r: Vec<Span>)
        ensures
            spans_view(r@) == method_rows_spec(self@),
    {
        let ms = crate::method::all_methods();
        let mut out: Vec<Span> = Vec::new();
        let mut i: usize = 0;
        while i < 5
            invariant
                i <= 5,
                ms@ == methods_spec(),
                spans_view(out@) =~= method_rows_spec(self@).take(i as int),
            decreases 5 - i,
        {
            let m = ms[i];
            let mut t = String::from_str(" ");
            proof {
                reveal_strlit(" ");
                assert(" "@ =~= seq![' ']);
            }
            let padded = pad_right_exec(m.label(), 6);
            t.append(padded.as_str());
            assert(m == methods_spec()[i as int]);
            assert(t@ =~= seq![' '] + pad_right(label_spec(m), 6));
            let ghost before = spans_view(out@);
            let look = method_style(m);
            let bg = if self.active_block == ActiveBlock::MethodDropdown && i == self.selected_method_row { Some(Paint::SelectedBg) } else { None };
            owned_span(&mut out, t, Look { bg, ..look });
            assert(spans_view(out@) == before.push(method_rows_spec(self@)[i as int]));
            assert(method_rows_spec(self@).take(i + 1) =~= method_rows_spec(self@).take(i as int).push(method_rows_spec(self@)[i as int]));
            i += 1;
        }
        assert(method_rows_spec(self@).take(5) =~= method_rows_spec(self@));
        out
    }

    /// The response panel's tab bar (see `response_tab_line_spec`).
    pub fn response_tab_line(&self) -> (r: Vec<Span>)
        ensures
            spans_view(r@) == response_tab_line_spec(self@),
    {
        let t = self.response_tabs();
        let plain_look = Look { fg: None, bg: None, bold: false, reversed: false };
        let muted_look = Look { fg: Some(Paint::Muted), bg: None, bold: false, reversed: false };
        proof {
            reveal_strlit(" ");
            reveal_strlit(" \u{b7} ");
            assert(" "@ =~= seq![' ']);
            assert(" \u{b7} "@ =~= seq![' ', '\u{b7}', ' ']);
            assert(crate::tui::strings_view(t@).len() == 3);
            assert(crate::tui::strings_view(t@)[0] == t@[0]@);
            assert(crate::tui::strings_view(t@)[1] == t@[1]@);
            assert(crate::tui::strings_view(t@)[2] == t@[2]@);
        }
        let mut out: Vec<Span> = Vec::new();
        text_span(&mut out, " ", plain_look);
        owned_span(&mut out, t[0].clone(), tab_style(self.active_response_tab == ResponseTab::Body));
        text_span(&mut out, " \u{b7} ", muted_look);
        owned_span(&mut out, t[1].clone(), tab_style(self.active_response_tab == ResponseTab::Headers));
        text_span(&mut out, " \u{b7} ", muted_look);
        owned_span(&mut out, t[2].clone(), tab_style(self.active_response_tab == ResponseTab::Cookies));
        text_span(&mut out, " ", plain_look);
        assert(spans_view(out@) =~= response_tab_line_spec(self@));
        out
    }

    /// The response panel's right title (see `status_line_spec`).
    pub fn status_line(&self) -> (r: Vec<Span>)
        ensures
            spans_view(r@) == status_line_spec(self@),
    {
        let plain_look = Look { fg: None, bg: None, bold: false, reversed: false };
        proof {
            reveal_strlit(" ");
            reveal_strlit("Response");
            reveal_strlit(" \u{b7} ");
            reveal_strlit("HTTP ");
            assert(" "@ =~= seq![' ']);
            assert("Response"@ =~= seq!['R', 'e', 's', 'p', 'o', 'n', 's', 'e']);
            assert(" \u{b7} "@ =~= seq![' ', '\u{b7}', ' ']);
            assert("HTTP "@ =~= seq!['H', 'T', 'T', 'P', ' ']);
        }
        let mut out: Vec<Span> = Vec::new();
        text_span(&mut out, " ", plain_look);
        text_span(&mut out, "Response", Look { fg: Some(Paint::TermWhite), bg: None, bold: false, reversed: false });
        match self.response.status {
            Some(st) => {
                text_span(&mut out, " \u{b7} ", Look { fg: Some(Paint::Muted), bg: None, bold: false, reversed: false });
                let mut t = String::from_str("HTTP ");
                let d = decimal(st as usize);
                t.append(d.as_str());
                let p = if 200 <= st && st <= 299 {
                    Paint::Green
                } else if 300 <= st && st <= 399 {
                    Paint::Blue
                } else if 400 <= st && st <= 499 {
                    Paint::Yellow
                } else if 500 <= st && st <= 599 {
                    Paint::Red
                } else {
                    Paint::Muted
                };
                owned_span(&mut out, t, Look { fg: Some(p), bg: None, bold: true, reversed: false });
            },
            None => {},
        }
        text_span(&mut out, " ", plain_look);
        assert(spans_view(out@) =~= status_line_spec(self@));
        out
    }

    /// The shortcut bar (see `shortcut_bar_spec`).
    pub fn shortcut_bar(&self) -> (r: Vec<Span>)
        ensures
            spans_view(r@) == shortcut_bar_spec(self@),
    {
        proof {
            reveal_strlit(" Ctrl ");
            assert(" Ctrl "@ =~= seq![' ', 'C', 't', 'r', 'l', ' ']);
        }
        let mut out: Vec<Span> = Vec::new();
        text_span(&mut out, " Ctrl ", Look { fg: Some(Paint::Panel), bg: Some(Paint::Accent), bold: true, reversed: false });
        let mut sep = String::new();
        crate::text::push_char(&mut sep, '\u{e0b0}');
        crate::text::push_char(&mut sep, ' ');
        assert(sep@ =~= seq!['\u{e0b0}', ' ']);
        owned_span(&mut out, sep, Look { fg: Some(Paint::Accent), bg: Some(Paint::SelectedBg), bold: false, reversed: false });
        let mut keys: Vec<char> = vec!['q', 's'];
        let mut names: Vec<&str> = vec!["QUIT", "SEND"];
        if self.active_block == ActiveBlock::Params && self.active_request_tab != RequestTab::Body {
            keys.push('e');
            names.push("EDIT");
        }
        keys.push('w');
        names.push(if self.wrap_body { "UNWRAP" } else { "WRAP" });
        proof {
            reveal_strlit("QUIT");
            reveal_strlit("SEND");
            reveal_strlit("EDIT");
            reveal_strlit("UNWRAP");
            reveal_strlit("WRAP");
            assert("QUIT"@ =~= seq!['Q', 'U', 'I', 'T']);
            assert("SEND"@ =~= seq!['S', 'E', 'N', 'D']);
            assert("EDIT"@ =~= seq!['E', 'D', 'I', 'T']);
            assert("UNWRAP"@ =~= seq!['U', 'N', 'W', 'R', 'A', 'P']);
            assert("WRAP"@ =~= seq!['W', 'R', 'A', 'P']);
        }
        let ghost sc = shortcuts_spec(self@);
        assert(keys@.len() == sc.len());
        assert(forall|k: int| 0 <= k < sc.len() ==> #[trigger] sc[k] == (keys@[k], names@[k]@));
        let ghost head = spans_view(out@);
        let n = keys.len();
        let mut k: usize = 0;
        assert(head + shortcut_spans(sc, 0) =~= spans_view(out@) + shortcut_spans(sc, 0));
        while k < n
            invariant
                n == keys@.len(),
                n == names@.len(),
                n == sc.len(),
                k <= n,
                forall|j: int| 0 <= j < sc.len() ==> #[trigger] sc[j] == (keys@[j], names@[j]@),
                spans_view(out@) + shortcut_spans(sc, k as int) == head + shortcut_spans(sc, 0),
            decreases n - k,
        {
            let bg = if k % 2 == 0 { Paint::SelectedBg } else { Paint::Border };
            let next = if k == n - 1 { Paint::Panel } else if (k + 1) % 2 == 0 { Paint::SelectedBg } else { Paint::Border };
            let ghost before = spans_view(out@);
            let mut key = String::new();
            crate::text::push_char(&mut key, keys[k]);
            assert(key@ =~= seq![sc[k as int].0]);
            owned_span(&mut out, key, Look { fg: Some(Paint::Green), bg: Some(bg), bold: true, reversed: false });
            let mut name = String::from_str(" ");
            proof {
                reveal_strlit(" ");
            }
            name.append(names[k]);
            crate::text::push_char(&mut name, ' ');
            assert(name@ =~= seq![' '] + sc[k as int].1 + seq![' ']);
            owned_span(&mut out, name, Look { fg: Some(Paint::Text), bg: Some(bg), bold: false, reversed: false });
            let mut s2 = String::new();
            crate::text::push_char(&mut s2, '\u{e0b0}');
            crate::text::push_char(&mut s2, ' ');
            assert(s2@ =~= seq!['\u{e0b0}', ' ']);
            owned_span(&mut out, s2, Look { fg: Some(bg), bg: Some(next), bold: false, reversed: false });
            assert(bg == shortcut_bg(k as int));
            assert(spans_view(out@) + shortcut_spans(sc, k + 1) =~= before + shortcut_spans(sc, k as int));
            k += 1;
        }
        assert(shortcut_spans(sc, n as int) =~= Seq::<(Seq<char>, Look)>::empty());
        assert(spans_view(out@) =~= head + shortcut_spans(sc, 0));
        out
    }
}


/// The scrollbar of a panel: shown when the text has more rows than the panel, over the
/// rows that do not fit.
pub fn scrollbar_extent(rows: usize, view_height: usize) -> (r: Option<usize>)
    ensures
        r == (if rows > view_height { Some((rows - view_height) as usize) } else { None::<usize> }),
{
    if rows > view_height { Some(rows - view_height) } else { None }
}

} // verus!
