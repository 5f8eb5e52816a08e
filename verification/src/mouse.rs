//! What the mouse does to the client.
use vstd::prelude::*;
use crate::method::{HttpMethod, label_spec, methods_spec};
use crate::project::{RataProject, Operation, OperationView, CollectionView, collections_view, ops_view};
use crate::text::{char_count, lines_spec};
use crate::layout::{visual_to_char_index, visual_to_char_spec, char_index_to_logical, logical_pos};
use crate::panels::{Selection, selection_text, extract_text_selection};
use crate::tabs::{response_tab_at_spec, request_tab_at_spec, response_text_spec, response_scrolled_down, request_scrolled_down,
    cursor_scroll, cursor_fits, sat_sub16, sat_add16, min16, table_rows};
use crate::flow::{send_spec, send_task, example_task, url_edited_spec, url_edited_task, select_spec};
use crate::keys::{idle, begin_edit, edit_saved};
use crate::tui::{TuiApp, AppValue, DraftValue, Task, TaskValue, MouseInput, MouseKind, Rect, ActiveBlock, RequestTab, ParamEditMode,
    ResponseTab, DragTarget, strings_view};

verus! {

// ---------------------------------------------------------------------------
// Cells and positions
// ---------------------------------------------------------------------------

/// Whether the border arithmetic on a rectangle stays in the 16-bit cell range: its right
/// and bottom edges, the cell inside its left border and the second row inside its top
/// border.
pub open spec fn rect_fits(r: Rect) -> bool {
    r.x + r.width <= 65535 && r.y + r.height <= 65535 && r.x + 1 <= 65535 && r.y + 2 <= 65535
}

/// Whether the arithmetic on the panels and the mouse cell stays in the 16-bit cell range
/// (for the URL bar, up to the start of the URL after the method button).
pub open spec fn screen_fits(s: AppValue, m: MouseInput) -> bool {
    &&& rect_fits(s.collections_area)
    &&& rect_fits(s.request_area)
    &&& s.request_area.x + 12 <= 65535
    &&& rect_fits(s.params_area)
    &&& rect_fits(s.examples_area)
    &&& rect_fits(s.response_area)
    &&& rect_fits(s.method_dropdown_area)
    &&& rect_fits(s.send_button_area)
    &&& rect_fits(s.error_popup_area)
    &&& m.column < 65535
    &&& m.row < 65535
}

/// The line and column of the character at a row and column of a laid-out text.
pub open spec fn point_at(text: Seq<char>, v_line: int, v_col: int, width: nat, wrap: bool) -> (usize, usize) {
    let lp = logical_pos(lines_spec(text), visual_to_char_spec(text, v_line, v_col, width, wrap), 0, 0);
    (lp.0 as usize, lp.1 as usize)
}

/// The position in a text of the character at a row and column of its layout.
pub open spec fn index_at(text: Seq<char>, v_line: int, v_col: int, width: nat, wrap: bool) -> usize {
    visual_to_char_spec(text, v_line, v_col, width, wrap) as usize
}

/// The row of a method in the method menu.
pub open spec fn method_row(m: HttpMethod) -> usize {
    match m {
        HttpMethod::Get => 0,
        HttpMethod::Post => 1,
        HttpMethod::Put => 2,
        HttpMethod::Patch => 3,
        HttpMethod::Delete => 4,
    }
}

/// The width of the method button: the label with a space and the menu mark on each side.
pub open spec fn method_button_len(m: HttpMethod) -> int {
    label_spec(m).len() as int + 4
}

// ---------------------------------------------------------------------------
// The error window
// ---------------------------------------------------------------------------

/// The text position under the mouse inside the error window.
pub open spec fn popup_point(s: AppValue, m: MouseInput, e: Seq<char>) -> (usize, usize) {
    let a = s.error_popup_area;
    point_at(e, sat_sub16(m.row as int, a.y + 1) as int, sat_sub16(m.column as int, a.x + 1) as int, sat_sub16(a.width as int, 2) as nat, true)
}

/// The mouse while an error is shown: a press outside the window closes it; a press
/// inside starts a selection, a drag extends it, and a release copies the selected text.
pub open spec fn popup_step(s: AppValue, m: MouseInput, e: Seq<char>) -> (AppValue, TaskValue) {
    match m.kind {
        MouseKind::LeftDown => if !s.error_popup_area.holds(m.column, m.row) {
            idle(AppValue { error_popup: None, text_selection: None, ..s })
        } else {
            let p = popup_point(s, m, e);
            idle(AppValue { drag_target: DragTarget::ErrorPopupSelection, text_selection: Some(Selection { start: p, end: p }), ..s })
        },
        MouseKind::LeftDrag => if s.drag_target == DragTarget::ErrorPopupSelection {
            match s.text_selection {
                Some(sel) => idle(AppValue { text_selection: Some(Selection { end: popup_point(s, m, e), ..sel }), ..s }),
                None => idle(s),
            }
        } else {
            idle(s)
        },
        MouseKind::LeftUp => if s.drag_target == DragTarget::ErrorPopupSelection {
            let t = match s.text_selection {
                Some(sel) => if selection_text(e, sel).len() > 0 { TaskValue::Copy(selection_text(e, sel)) } else { TaskValue::Idle },
                None => TaskValue::Idle,
            };
            (AppValue { drag_target: DragTarget::Nothing, ..s }, t)
        } else {
            idle(s)
        },
        _ => idle(s),
    }
}

// ---------------------------------------------------------------------------
// The wheel
// ---------------------------------------------------------------------------

/// The wheel scrolls the panel under the mouse by three rows (the response, or the
/// request, whose cursor goes to the end) and gives it the focus.
pub open spec fn wheel_step(s: AppValue, m: MouseInput, down: bool) -> AppValue {
    if s.response_area.holds(m.column, m.row) {
        let s1 = AppValue { active_block: ActiveBlock::Response, ..s };
        AppValue { response_scroll: if down { response_scrolled_down(s1, 3) } else { sat_sub16(s1.response_scroll as int, 3) }, ..s1 }
    } else if s.params_area.holds(m.column, m.row) {
        let s1 = AppValue { active_block: ActiveBlock::Params, text_cursor: usize::MAX, ..s };
        AppValue { request_scroll: if down { request_scrolled_down(s1, 3) } else { sat_sub16(s1.request_scroll as int, 3) }, ..s1 }
    } else {
        s
    }
}

// ---------------------------------------------------------------------------
// Dragging
// ---------------------------------------------------------------------------

pub open spec fn clamp16(v: int, lo: int, hi: int) -> u16 {
    (if v < lo { lo } else if v > hi { hi } else { v }) as u16
}

/// The share of the height given to the response when its top border is dragged to a row.
pub open spec fn response_share(s: AppValue, row: u16) -> u16 {
    let h = sat_add16(s.params_area.height as int, s.response_area.height as int);
    let offset = sat_sub16(row as int, s.params_area.y as int);
    let percent = (((offset as int) * 100 / (h as int)) % 65536) as u16;
    clamp16(sat_sub16(100, percent as int) as int, 10, 90)
}

/// The response scroll offset after a drag that scrolls by the rows moved since the last one.
pub open spec fn drag_scrolled(s: AppValue, row: u16, request: bool) -> AppValue {
    match s.drag_last_row {
        Some(last) => if row > last {
            if request {
                AppValue { request_scroll: request_scrolled_down(s, (row - last) as u16), ..s }
            } else {
                AppValue { response_scroll: response_scrolled_down(s, (row - last) as u16), ..s }
            }
        } else if row < last {
            if request {
                AppValue { request_scroll: sat_sub16(s.request_scroll as int, last - row), ..s }
            } else {
                AppValue { response_scroll: sat_sub16(s.response_scroll as int, last - row), ..s }
            }
        } else {
            s
        },
        None => s,
    }
}

/// While selecting in a panel, dragging above or below its text rows scrolls it.
pub open spec fn edge_scrolled(s: AppValue, row: u16, request: bool) -> AppValue {
    let a = if request { s.params_area } else { s.response_area };
    let top = a.y + 1;
    let bottom = a.y + sat_sub16(a.height as int, 1);
    if row < top {
        if request {
            AppValue { request_scroll: sat_sub16(s.request_scroll as int, top - row), ..s }
        } else {
            AppValue { response_scroll: sat_sub16(s.response_scroll as int, top - row), ..s }
        }
    } else if row >= bottom {
        if request {
            AppValue { request_scroll: request_scrolled_down(s, (row - bottom + 1) as u16), ..s }
        } else {
            AppValue { response_scroll: response_scrolled_down(s, (row - bottom + 1) as u16), ..s }
        }
    } else {
        s
    }
}

/// The row of the laid-out text under the mouse while selecting: the top visible row when
/// the mouse is above the panel.
pub open spec fn drag_line(a: Rect, row: u16, scroll: u16) -> int {
    if row < a.y + 1 { scroll as int } else { (row - (a.y + 1)) + scroll }
}

/// Dragging a response selection moves its end (and the cursor) to the character under
/// the mouse.
pub open spec fn response_drag(s: AppValue, m: MouseInput) -> AppValue {
    let s1 = edge_scrolled(s, m.row, false);
    let a = s1.response_area;
    let text = response_text_spec(s1);
    let width = sat_sub16(a.width as int, 2) as nat;
    let wrap = s1.active_response_tab == ResponseTab::Body && s1.wrap_body;
    match s1.text_selection {
        Some(sel) => {
            let line = drag_line(a, m.row, s1.response_scroll);
            let col = sat_sub16(m.column as int, a.x + 1) as int;
            AppValue {
                text_selection: Some(Selection { end: point_at(text, line, col, width, wrap), ..sel }),
                text_cursor: index_at(text, line, col, width, wrap),
                ..s1
            }
        },
        None => s1,
    }
}

/// The state of a body selection drag before the body is scrolled to the cursor.
pub open spec fn request_drag_moved(s: AppValue, m: MouseInput) -> AppValue {
    let s1 = edge_scrolled(s, m.row, true);
    let a = s1.params_area;
    let width = sat_sub16(a.width as int, 2) as nat;
    match s1.request_selection {
        Some(sel) => {
            let line = drag_line(a, m.row, s1.request_scroll);
            let col = sat_sub16(m.column as int, a.x + 1) as int;
            AppValue {
                request_selection: Some(Selection { end: point_at(s1.draft.body, line, col, width, s1.wrap_body), ..sel }),
                text_cursor: index_at(s1.draft.body, line, col, width, s1.wrap_body),
                ..s1
            }
        },
        None => s1,
    }
}

/// Dragging a body selection moves its end and the cursor, and keeps the cursor in view.
pub open spec fn request_drag(s: AppValue, m: MouseInput) -> AppValue {
    let s2 = request_drag_moved(s, m);
    if s2.request_selection is Some && edge_scrolled(s, m.row, true).request_selection is Some {
        AppValue { request_scroll: cursor_scroll(s2), ..s2 }
    } else {
        s2
    }
}

/// What a drag with the left button does, by what the press started: resize a panel,
/// scroll, or extend a selection.
pub open spec fn drag_step(s: AppValue, m: MouseInput) -> AppValue {
    match s.drag_target {
        DragTarget::Collections => AppValue { collections_width: clamp16(m.column as int, 10, 120), ..s },
        DragTarget::Request => AppValue { request_height: clamp16(sat_sub16(m.row as int, s.request_area.y as int) as int, 3, 20), ..s },
        DragTarget::Response => if sat_add16(s.params_area.height as int, s.response_area.height as int) > 0 {
            AppValue { response_height_percent: response_share(s, m.row), ..s }
        } else {
            s
        },
        DragTarget::ScrollResponse => AppValue { drag_last_row: Some(m.row), ..drag_scrolled(s, m.row, false) },
        DragTarget::ScrollRequest => AppValue { drag_last_row: Some(m.row), ..drag_scrolled(s, m.row, true) },
        DragTarget::ResponseSelection => response_drag(s, m),
        DragTarget::RequestSelection => request_drag(s, m),
        _ => s,
    }
}

/// Releasing the left button ends the drag; a selection in the response or the body is
/// copied when it is not empty.
pub open spec fn release_step(s: AppValue) -> (AppValue, TaskValue) {
    let t = if s.drag_target == DragTarget::ResponseSelection {
        match s.text_selection {
            Some(sel) => {
                let text = selection_text(response_text_spec(s), sel);
                if text.len() > 0 { TaskValue::Copy(text) } else { TaskValue::Idle }
            },
            None => TaskValue::Idle,
        }
    } else if s.drag_target == DragTarget::RequestSelection {
        match s.request_selection {
            Some(sel) => {
                let text = selection_text(s.draft.body, sel);
                if text.len() > 0 { TaskValue::Copy(text) } else { TaskValue::Idle }
            },
            None => TaskValue::Idle,
        }
    } else {
        TaskValue::Idle
    };
    (AppValue { drag_target: DragTarget::Nothing, ..s }, t)
}

// ---------------------------------------------------------------------------
// Pressing the left button
// ---------------------------------------------------------------------------

/// What a row of the collections list is: the header of a collection, an operation, or
/// nothing.
pub enum RowHit {
    Tag(Seq<char>),
    Op(OperationView),
    Miss,
}

/// What is shown at row `r` of the collections list: each collection's header, followed
/// by its operations unless it is collapsed.
pub open spec fn row_hit(cs: Seq<CollectionView>, collapsed: Seq<Seq<char>>, r: int) -> RowHit
    decreases cs.len(),
{
    if cs.len() == 0 || r < 0 {
        RowHit::Miss
    } else if r == 0 {
        RowHit::Tag(cs[0].name)
    } else if !collapsed.contains(cs[0].name) && r - 1 < cs[0].operations.len() {
        RowHit::Op(cs[0].operations[r - 1])
    } else if !collapsed.contains(cs[0].name) {
        row_hit(cs.drop_first(), collapsed, r - 1 - cs[0].operations.len())
    } else {
        row_hit(cs.drop_first(), collapsed, r - 1)
    }
}

/// The tags without `name`.
pub open spec fn without(tags: Seq<Seq<char>>, name: Seq<char>) -> Seq<Seq<char>>
    decreases tags.len(),
{
    if tags.len() == 0 {
        seq![]
    } else if tags.last() == name {
        without(tags.drop_last(), name)
    } else {
        without(tags.drop_last(), name).push(tags.last())
    }
}

/// The collapsed collections after clicking a header: it opens when it was collapsed,
/// and collapses otherwise.
pub open spec fn toggled_tags(tags: Seq<Seq<char>>, name: Seq<char>) -> Seq<Seq<char>> {
    if tags.contains(name) { without(tags, name) } else { tags.push(name) }
}

/// A press that falls on no control: the focus is dropped, unless the press is on the
/// collections list, which takes the focus; a header there collapses or opens its
/// collection, an operation is chosen.
pub open spec fn list_press(s: AppValue, m: MouseInput, project: Option<&RataProject>) -> (AppValue, TaskValue) {
    let s0 = AppValue { active_block: ActiveBlock::Nothing, ..s };
    if s.collections_area.holds(m.column, m.row) {
        let s1 = AppValue { active_block: ActiveBlock::Collections, ..s0 };
        let list_y = s.collections_area.y + 1;
        match project {
            Some(p) => if m.row >= list_y {
                match row_hit(p.collections_spec(), s.collapsed_tags, m.row - list_y) {
                    RowHit::Tag(name) => idle(AppValue { collapsed_tags: toggled_tags(s.collapsed_tags, name), ..s1 }),
                    RowHit::Op(op) => (select_spec(s1, op), TaskValue::ListExamples(op, true)),
                    RowHit::Miss => idle(s1),
                }
            } else {
                idle(s1)
            },
            None => idle(s1),
        }
    } else {
        idle(s0)
    }
}

/// A press in the response text starts a selection at the character under the mouse.
pub open spec fn response_press(s: AppValue, m: MouseInput) -> AppValue {
    let a = s.response_area;
    let line = sat_sub16(m.row as int, a.y + 1) + s.response_scroll;
    let col = sat_sub16(m.column as int, a.x + 1) as int;
    let p = point_at(response_text_spec(s), line, col, sat_sub16(a.width as int, 2) as nat,
        s.active_response_tab == ResponseTab::Body && s.wrap_body);
    AppValue {
        active_block: ActiveBlock::Response,
        drag_target: DragTarget::ResponseSelection,
        text_selection: Some(Selection { start: p, end: p }),
        drag_last_row: Some(m.row),
        ..s
    }
}

/// A press in the request panel: in the body it starts a selection and puts the cursor
/// at the character under the mouse; in a table it starts a scroll drag, and a press on
/// a row (the rows start two lines below the panel's top, under the column titles)
/// selects it and starts editing its value, a press on the "add" row selects it.
pub open spec fn params_press(s: AppValue, m: MouseInput) -> AppValue {
    let a = s.params_area;
    if s.active_request_tab == RequestTab::Body {
        let line = sat_sub16(m.row as int, a.y + 1) + s.request_scroll;
        let col = sat_sub16(m.column as int, a.x + 1) as int;
        let width = sat_sub16(a.width as int, 2) as nat;
        let p = point_at(s.draft.body, line, col, width, s.wrap_body);
        AppValue {
            active_block: ActiveBlock::Params,
            drag_target: DragTarget::RequestSelection,
            request_selection: Some(Selection { start: p, end: p }),
            text_cursor: index_at(s.draft.body, line, col, width, s.wrap_body),
            drag_last_row: Some(m.row),
            ..s
        }
    } else {
        let base = AppValue {
            active_block: ActiveBlock::Params,
            drag_target: DragTarget::ScrollRequest,
            text_cursor: usize::MAX,
            drag_last_row: Some(m.row),
            ..s
        };
        let rows = table_rows(s);
        let first = a.y + 2;
        if m.row >= first && m.row - first <= rows.len() {
            let t = AppValue { selected_request_row: (m.row - first) as usize, ..base };
            if m.row - first < rows.len() {
                begin_edit(t, ParamEditMode::Value)
            } else {
                edit_saved(t)
            }
        } else {
            base
        }
    }
}

/// A press on the panels: the collections border starts a resize; the URL bar sends
/// (on the send button) or puts the cursor in the URL; the top borders of the request and
/// response panels start a resize; the response text and the request panel start a
/// selection or a scroll; anything else goes to `list_press`.
pub open spec fn area_press(s: AppValue, m: MouseInput, project: Option<&RataProject>) -> (AppValue, TaskValue) {
    let cr = s.collections_area.right_spec();
    if m.column == sat_sub16(cr as int, 1) || m.column == cr {
        idle(AppValue { active_block: ActiveBlock::Collections, drag_target: DragTarget::Collections, ..s })
    } else if s.request_area.holds(m.column, m.row) {
        if s.send_button_area.holds(m.column, m.row) {
            (send_spec(s), send_task(s))
        } else {
            let url_x = s.request_area.x + 1 + method_button_len(s.draft.method) + 2;
            idle(AppValue {
                active_block: ActiveBlock::Request,
                text_cursor: if m.column >= url_x {
                    (if m.column - url_x <= s.draft.url.len() { m.column - url_x } else { s.draft.url.len() as int }) as usize
                } else {
                    usize::MAX
                },
                ..s
            })
        }
    } else if m.column >= s.request_area.x && (m.row == sat_sub16(s.params_area.y as int, 1) || m.row == s.params_area.y) {
        idle(AppValue { active_block: ActiveBlock::Params, text_cursor: usize::MAX, drag_target: DragTarget::Request, ..s })
    } else if m.column >= s.request_area.x && (m.row == sat_sub16(s.response_area.y as int, 1) || m.row == s.response_area.y) {
        idle(AppValue { active_block: ActiveBlock::Response, drag_target: DragTarget::Response, ..s })
    } else if s.response_area.holds(m.column, m.row) {
        idle(response_press(s, m))
    } else if s.params_area.holds(m.column, m.row) {
        idle(params_press(s, m))
    } else {
        list_press(s, m, project)
    }
}

/// A press on the tab bars switches the tab: a response tab scrolls the response to the
/// top and drops its selection; a request tab puts the cursor at the end and selects the
/// first row.
pub open spec fn tab_press(s: AppValue, m: MouseInput, project: Option<&RataProject>) -> (AppValue, TaskValue) {
    match response_tab_at_spec(s, m.column, m.row, s.response_tab_origin) {
        Some(tab) => idle(AppValue {
            active_response_tab: tab, response_scroll: 0, active_block: ActiveBlock::Response, text_selection: None, ..s
        }),
        None => match request_tab_at_spec(s, m.column, m.row) {
            Some(tab) => idle(AppValue {
                active_request_tab: tab, active_block: ActiveBlock::Params, text_cursor: usize::MAX, selected_request_row: 0, ..s
            }),
            None => area_press(s, m, project),
        },
    }
}

/// A press on the examples menu: its toggle at the right of the URL bar's top border
/// opens or closes it; a press inside chooses an example and closes it; a press elsewhere
/// closes it.
pub open spec fn examples_press(s: AppValue, m: MouseInput, project: Option<&RataProject>) -> (AppValue, TaskValue) {
    let right = s.request_area.right_spec();
    let toggle = m.row == s.request_area.y && m.column >= sat_sub16(right as int, 14) && m.column < right;
    let inside = s.examples_dropdown_open && s.examples_area.holds(m.column, m.row);
    let s1 = if s.examples_dropdown_open && !toggle && !inside { AppValue { examples_dropdown_open: false, ..s } } else { s };
    if toggle {
        if !s1.examples_dropdown_open {
            idle(AppValue { examples_dropdown_open: true, active_block: ActiveBlock::Examples, ..s1 })
        } else {
            idle(AppValue { examples_dropdown_open: false, active_block: ActiveBlock::Request, text_cursor: usize::MAX, ..s1 })
        }
    } else if inside {
        (AppValue { active_block: ActiveBlock::Request, examples_dropdown_open: false, ..s1 },
            example_task(s1, project, sat_sub16(m.row as int, s.examples_area.y + 1) as int))
    } else {
        tab_press(s1, m, project)
    }
}

/// A press of the left button: the method button opens or closes the method menu; a
/// press inside the menu chooses a method (the URL is then followed) and closes it; a
/// press elsewhere closes it; then see `examples_press`.
pub open spec fn press_step(s: AppValue, m: MouseInput, project: Option<&RataProject>) -> (AppValue, TaskValue) {
    let on_button = m.row == s.request_area.y + 1 && m.column >= s.request_area.x + 1
        && m.column < s.request_area.x + 1 + method_button_len(s.draft.method);
    let inside = s.method_dropdown_open && s.method_dropdown_area.holds(m.column, m.row);
    let s1 = if s.method_dropdown_open && !on_button && !inside { AppValue { method_dropdown_open: false, ..s } } else { s };
    if on_button {
        if !s1.method_dropdown_open {
            idle(AppValue { method_dropdown_open: true, active_block: ActiveBlock::MethodDropdown, selected_method_row: method_row(s1.draft.method), ..s1 })
        } else {
            idle(AppValue { method_dropdown_open: false, active_block: ActiveBlock::Request, text_cursor: usize::MAX, ..s1 })
        }
    } else if inside {
        let s2 = AppValue { active_block: ActiveBlock::Request, method_dropdown_open: false, ..s1 };
        let row = sat_sub16(m.row as int, s.method_dropdown_area.y + 1);
        if row < 5 {
            let s3 = AppValue { draft: DraftValue { method: methods_spec()[row as int], ..s2.draft }, ..s2 };
            (url_edited_spec(s3, project), url_edited_task(s3, project))
        } else {
            idle(s2)
        }
    } else {
        examples_press(s1, m, project)
    }
}

/// What a mouse event does: while an error is shown, only the error window reacts (see
/// `popup_step`); else the wheel scrolls, a drag acts on what the press started, a
/// release ends it, and a press acts on what is under the mouse.
pub open spec fn mouse_step(s: AppValue, m: MouseInput, project: Option<&RataProject>) -> (AppValue, TaskValue) {
    match s.error_popup {
        Some(e) => popup_step(s, m, e),
        None => match m.kind {
            MouseKind::ScrollUp => idle(wheel_step(s, m, false)),
            MouseKind::ScrollDown => idle(wheel_step(s, m, true)),
            MouseKind::LeftDrag => idle(drag_step(s, m)),
            MouseKind::LeftUp => release_step(s),
            MouseKind::LeftDown => press_step(s, m, project),
            MouseKind::Other => idle(s),
        },
    }
}

/// Whether a mouse event can be handled within the machine's integers: the panels and the
/// mouse cell lie well inside the 16-bit range, and keeping the body cursor in view after
/// a selection drag stays in range.
pub open spec fn mouse_fits(s: AppValue, m: MouseInput) -> bool {
    &&& screen_fits(s, m)
    &&& (s.error_popup is None && m.kind == MouseKind::LeftDrag && s.drag_target == DragTarget::RequestSelection
        && edge_scrolled(s, m.row, true).request_selection is Some ==> cursor_fits(request_drag_moved(s, m)))
}

// ---------------------------------------------------------------------------
// Executable parts
// ---------------------------------------------------------------------------

fn point_in(text: &str, v_line: usize, v_col: usize, width: usize, wrap: bool) -> (r: (usize, (usize, usize)))
    ensures
        r.0 == index_at(text@, v_line as int, v_col as int, width as nat, wrap),
        r.1 == point_at(text@, v_line as int, v_col as int, width as nat, wrap),
{
    let idx = visual_to_char_index(text, v_line, v_col, width, wrap);
    let p = char_index_to_logical(text, idx);
    (idx, p)
}

fn method_row_of(m: HttpMethod) -> (r: usize)
    ensures
        r == method_row(m),
        r < 5,
        methods_spec()[r as int] == m,
{
    match m {
        HttpMethod::Get => 0,
        HttpMethod::Post => 1,
        HttpMethod::Put => 2,
        HttpMethod::Patch => 3,
        HttpMethod::Delete => 4,
    }
}

fn method_button_width(m: HttpMethod) -> (r: u16)
    ensures
        r == method_button_len(m),
{
    match m {
        HttpMethod::Get => 7,
        HttpMethod::Post => 8,
        HttpMethod::Put => 7,
        HttpMethod::Patch => 9,
        HttpMethod::Delete => 7,
    }
}

fn clamp(v: u16, lo: u16, hi: u16) -> (r: u16)
    requires
        lo <= hi,
    ensures
        r == clamp16(v as int, lo as int, hi as int),
{
    if v < lo { lo } else if v > hi { hi } else { v }
}

proof fn lemma_without_step(tags: Seq<Seq<char>>, name: Seq<char>, i: int)
    requires
        0 <= i < tags.len(),
    ensures
        without(tags.take(i + 1), name) == if tags[i] == name { without(tags.take(i), name) } else { without(tags.take(i), name).push(tags[i]) },
{
    assert(tags.take(i + 1).drop_last() =~= tags.take(i));
}

fn toggle_tag(tags: &mut Vec<String>, name: &String)
    ensures
        strings_view(final(tags)@) == toggled_tags(strings_view(old(tags)@), name@),
{
    let ghost tv = strings_view(tags@);
    let mut found = false;
    let mut out: Vec<String> = Vec::new();
    let mut i: usize = 0;
    while i < tags.len()
        invariant
            i <= tags.len(),
            tv == strings_view(tags@),
            strings_view(out@) == without(tv.take(i as int), name@),
            found == tv.take(i as int).contains(name@),
        decreases tags.len() - i,
    {
        proof {
            lemma_without_step(tv, name@, i as int);
            assert(tv[i as int] == tags@[i as int]@);
            assert(tv.take(i + 1) =~= tv.take(i as int).push(tv[i as int]));
            let t0 = tv.take(i as int);
            let t1 = tv.take(i + 1);
            assert(t1.contains(name@) == (t0.contains(name@) || tv[i as int] == name@)) by {
                if t1.contains(name@) {
                    let k = choose|k: int| 0 <= k < t1.len() && #[trigger] t1[k] == name@;
                    if k < i {
                        assert(t0[k] == name@);
                    }
                }
                if t0.contains(name@) {
                    let k = choose|k: int| 0 <= k < t0.len() && #[trigger] t0[k] == name@;
                    assert(t1[k] == name@);
                }
                if tv[i as int] == name@ {
                    assert(t1[i as int] == name@);
                }
            }
        }
        if tags[i] == *name {
            found = true;
        } else {
            let c = tags[i].clone();
            let ghost before = strings_view(out@);
            out.push(c);
            assert(strings_view(out@) =~= before.push(c@));
        }
        i += 1;
    }
    assert(tv.take(tags.len() as int) =~= tv);
    if found {
        *tags = out;
    } else {
        let ghost before = strings_view(tags@);
        tags.push(name.clone());
        assert(strings_view(tags@) =~= before.push(name@));
    }
}

impl TuiApp {
    fn popup_mouse(&mut self, m: MouseInput) -> (t: Task)
        requires
            old(self).error_popup is Some,
            screen_fits(old(self)@, m),
        ensures
            final(self)@ == popup_step(old(self)@, m, old(self)@.error_popup->0).0,
            t@ == popup_step(old(self)@, m, old(self)@.error_popup->0).1,
    {
        let error = match &self.error_popup {
            Some(e) => e.clone(),
            None => String::new(),
        };
        let a = self.error_popup_area;
        match m.kind {
            MouseKind::LeftDown => {
                if !a.contains(m.column, m.row) {
                    self.error_popup = None;
                    self.text_selection = None;
                } else {
                    self.drag_target = DragTarget::ErrorPopupSelection;
                    let line = m.row.saturating_sub(a.y + 1) as usize;
                    let col = m.column.saturating_sub(a.x + 1) as usize;
                    let width = a.width.saturating_sub(2) as usize;
                    let (_, p) = point_in(error.as_str(), line, col, width, true);
                    self.text_selection = Some(Selection { start: p, end: p });
                }
                Task::Idle
            },
            MouseKind::LeftDrag => {
                if self.drag_target == DragTarget::ErrorPopupSelection {
                    match self.text_selection {
                        Some(sel) => {
                            let line = m.row.saturating_sub(a.y + 1) as usize;
                            let col = m.column.saturating_sub(a.x + 1) as usize;
                            let width = a.width.saturating_sub(2) as usize;
                            let (_, p) = point_in(error.as_str(), line, col, width, true);
                            self.text_selection = Some(Selection { start: sel.start, end: p });
                        },
                        None => {},
                    }
                }
                Task::Idle
            },
            MouseKind::LeftUp => {
                if self.drag_target == DragTarget::ErrorPopupSelection {
                    let mut t = Task::Idle;
                    match self.text_selection {
                        Some(sel) => {
                            let text = extract_text_selection(error.as_str(), sel);
                            if char_count(text.as_str()) > 0 {
                                t = Task::Copy(text);
                            }
                        },
                        None => {},
                    }
                    self.drag_target = DragTarget::Nothing;
                    t
                } else {
                    Task::Idle
                }
            },
            _ => Task::Idle,
        }
    }

    fn wheel(&mut self, m: MouseInput, down: bool)
        requires
            screen_fits(old(self)@, m),
        ensures
            final(self)@ == wheel_step(old(self)@, m, down),
    {
        if self.response_area.contains(m.column, m.row) {
            self.active_block = ActiveBlock::Response;
            if down { self.scroll_response_down(3); } else { self.scroll_response_up(3); }
        } else if self.params_area.contains(m.column, m.row) {
            self.active_block = ActiveBlock::Params;
            self.text_cursor = usize::MAX;
            if down { self.scroll_request_down(3); } else { self.scroll_request_up(3); }
        }
    }

    fn scroll_by_drag(&mut self, row: u16, request: bool)
        ensures
            final(self)@ == (AppValue { drag_last_row: Some(row), ..drag_scrolled(old(self)@, row, request) }),
    {
        match self.drag_last_row {
            Some(last) => {
                if row > last {
                    if request { self.scroll_request_down(row - last); } else { self.scroll_response_down(row - last); }
                } else if row < last {
                    if request { self.scroll_request_up(last - row); } else { self.scroll_response_up(last - row); }
                }
            },
            None => {},
        }
        self.drag_last_row = Some(row);
    }

    fn scroll_at_edge(&mut self, row: u16, request: bool)
        requires
            rect_fits(old(self).params_area),
            rect_fits(old(self).response_area),
            row < 65535,
        ensures
            final(self)@ == edge_scrolled(old(self)@, row, request),
    {
        let a = if request { self.params_area } else { self.response_area };
        let top = a.y + 1;
        let bottom = a.y + a.height.saturating_sub(1);
        if row < top {
            if request { self.scroll_request_up(top - row); } else { self.scroll_response_up(top - row); }
        } else if row >= bottom {
            if request { self.scroll_request_down(row - bottom + 1); } else { self.scroll_response_down(row - bottom + 1); }
        }
    }

    fn drag_response_selection(&mut self, m: MouseInput)
        requires
            screen_fits(old(self)@, m),
        ensures
            final(self)@ == response_drag(old(self)@, m),
    {
        self.scroll_at_edge(m.row, false);
        let a = self.response_area;
        let text = self.active_response_string();
        let width = a.width.saturating_sub(2) as usize;
        let wrap = self.active_response_tab == ResponseTab::Body && self.wrap_body;
        match self.text_selection {
            Some(sel) => {
                let line: usize = if m.row < a.y + 1 { self.response_scroll as usize } else { (m.row - (a.y + 1)) as usize + self.response_scroll as usize };
                let col = m.column.saturating_sub(a.x + 1) as usize;
                let (idx, p) = point_in(text.as_str(), line, col, width, wrap);
                self.text_selection = Some(Selection { start: sel.start, end: p });
                self.text_cursor = idx;
            },
            None => {},
        }
    }

    fn drag_request_selection(&mut self, m: MouseInput)
        requires
            screen_fits(old(self)@, m),
            edge_scrolled(old(self)@, m.row, true).request_selection is Some ==> cursor_fits(request_drag_moved(old(self)@, m)),
        ensures
            final(self)@ == request_drag(old(self)@, m),
    {
        self.scroll_at_edge(m.row, true);
        let a = self.params_area;
        let width = a.width.saturating_sub(2) as usize;
        match self.request_selection {
            Some(sel) => {
                let line: usize = if m.row < a.y + 1 { self.request_scroll as usize } else { (m.row - (a.y + 1)) as usize + self.request_scroll as usize };
                let col = m.column.saturating_sub(a.x + 1) as usize;
                let (idx, p) = point_in(self.draft.body.as_str(), line, col, width, self.wrap_body);
                self.request_selection = Some(Selection { start: sel.start, end: p });
                self.text_cursor = idx;
                self.ensure_cursor_visible();
            },
            None => {},
        }
    }

    fn drag(&mut self, m: MouseInput)
        requires
            screen_fits(old(self)@, m),
            old(self).error_popup is None,
            mouse_fits(old(self)@, MouseInput { kind: MouseKind::LeftDrag, ..m }),
        ensures
            final(self)@ == drag_step(old(self)@, m),
    {
        match self.drag_target {
            DragTarget::Collections => {
                self.collections_width = clamp(m.column, 10, 120);
            },
            DragTarget::Request => {
                self.request_height = clamp(m.row.saturating_sub(self.request_area.y), 3, 20);
            },
            DragTarget::Response => {
                let h = self.params_area.height.saturating_add(self.response_area.height);
                if h > 0 {
                    let offset = m.row.saturating_sub(self.params_area.y);
                    let q: u32 = offset as u32 * 100 / h as u32;
                    assert(q as u16 == q % 65536) by (bit_vector);
                    let percent = q as u16;
                    self.response_height_percent = clamp(100u16.saturating_sub(percent), 10, 90);
                }
            },
            DragTarget::ScrollResponse => {
                self.scroll_by_drag(m.row, false);
            },
            DragTarget::ScrollRequest => {
                self.scroll_by_drag(m.row, true);
            },
            DragTarget::ResponseSelection => {
                self.drag_response_selection(m);
            },
            DragTarget::RequestSelection => {
                self.drag_request_selection(m);
            },
            _ => {},
        }
    }

    fn release(&mut self) -> (t: Task)
        ensures
            final(self)@ == release_step(old(self)@).0,
            t@ == release_step(old(self)@).1,
    {
        let mut t = Task::Idle;
        if self.drag_target == DragTarget::ResponseSelection {
            match self.text_selection {
                Some(sel) => {
                    let text = self.extract_selection(sel);
                    if char_count(text.as_str()) > 0 {
                        t = Task::Copy(text);
                    }
                },
                None => {},
            }
        } else if self.drag_target == DragTarget::RequestSelection {
            match self.request_selection {
                Some(sel) => {
                    let text = self.extract_request_selection(sel);
                    if char_count(text.as_str()) > 0 {
                        t = Task::Copy(text);
                    }
                },
                None => {},
            }
        }
        self.drag_target = DragTarget::Nothing;
        t
    }

    fn press_list(&mut self, m: MouseInput, project: Option<&RataProject>) -> (t: Task)
        requires
            screen_fits(old(self)@, m),
        ensures
            final(self)@ == list_press(old(self)@, m, project).0,
            t@ == list_press(old(self)@, m, project).1,
    {
        let ghost s = self@;
        self.active_block = ActiveBlock::Nothing;
        if !self.collections_area.contains(m.column, m.row) {
            return Task::Idle;
        }
        self.active_block = ActiveBlock::Collections;
        let list_y = self.collections_area.y + 1;
        let p = match project {
            Some(p) => p,
            None => return Task::Idle,
        };
        if m.row < list_y {
            return Task::Idle;
        }
        let clicked: usize = (m.row - list_y) as usize;
        let cs = p.collections();
        let ghost cv = p.collections_spec();
        let ghost col = self@.collapsed_tags;
        let mut current: usize = 0;
        let mut i: usize = 0;
        assert(cv.skip(0) =~= cv);
        while i < cs.len()
            invariant
                i <= cs.len(),
                cv == p.collections_spec(),
                collections_view(cs@) == cv,
                col == self@.collapsed_tags,
                self@ == (AppValue { active_block: ActiveBlock::Collections, ..s }),
                col == s.collapsed_tags,
                clicked == m.row - list_y,
                clicked < 65536,
                project == Some(p),
                s == old(self)@,
                s.collections_area.holds(m.column, m.row),
                list_y == s.collections_area.y + 1,
                m.row >= list_y,
                current <= clicked,
                row_hit(cv, col, clicked as int) == row_hit(cv.skip(i as int), col, clicked - current),
            decreases cs.len() - i,
        {
            let ghost rest = cv.skip(i as int);
            assert(rest[0] == cs@[i as int]@);
            assert(rest.drop_first() =~= cv.skip(i + 1));
            let c = &cs[i];
            if current == clicked {
                let name = c.name.clone();
                assert(row_hit(cv, col, clicked as int) == RowHit::Tag(name@));
                toggle_tag(&mut self.collapsed_tags, &name);
                assert(self@ =~= list_press(s, m, project).0);
                return Task::Idle;
            }
            current += 1;
            if !crate::flow::contains_name(&self.collapsed_tags, &c.name) {
                let len = c.operations.len();
                if clicked - current < len {
                    let op = c.operations[clicked - current].copy();
                    assert(op@ == rest[0].operations[clicked - current]);
                    assert(row_hit(cv, col, clicked as int) == RowHit::Op(op@));
                    return self.select_operation(&op);
                }
                current = current + len;
            }
            i += 1;
        }
        proof {
            assert(cv.skip(i as int).len() == 0);
        }
        Task::Idle
    }

    fn press_url(&mut self, m: MouseInput)
        requires
            screen_fits(old(self)@, m),
        ensures
            ({
                let s = old(self)@;
                let url_x = s.request_area.x + 1 + method_button_len(s.draft.method) + 2;
                final(self)@ == (AppValue {
                    active_block: ActiveBlock::Request,
                    text_cursor: if m.column >= url_x {
                        (if m.column - url_x <= s.draft.url.len() { m.column - url_x } else { s.draft.url.len() as int }) as usize
                    } else {
                        usize::MAX
                    },
                    ..s
                })
            }),
    {
        self.active_block = ActiveBlock::Request;
        let url_x = self.request_area.x + 1 + method_button_width(self.draft.method) + 2;
        if m.column >= url_x {
            let clicked = (m.column - url_x) as usize;
            let n = char_count(self.draft.url.as_str());
            self.text_cursor = if clicked <= n { clicked } else { n };
        } else {
            self.text_cursor = usize::MAX;
        }
    }

    fn press_response(&mut self, m: MouseInput)
        requires
            screen_fits(old(self)@, m),
        ensures
            final(self)@ == response_press(old(self)@, m),
    {
        let a = self.response_area;
        let line = m.row.saturating_sub(a.y + 1) as usize + self.response_scroll as usize;
        let col = m.column.saturating_sub(a.x + 1) as usize;
        let text = self.active_response_string();
        let width = a.width.saturating_sub(2) as usize;
        let wrap = self.active_response_tab == ResponseTab::Body && self.wrap_body;
        let (_, p) = point_in(text.as_str(), line, col, width, wrap);
        self.active_block = ActiveBlock::Response;
        self.drag_target = DragTarget::ResponseSelection;
        self.text_selection = Some(Selection { start: p, end: p });
        self.drag_last_row = Some(m.row);
    }

    fn press_params(&mut self, m: MouseInput)
        requires
            screen_fits(old(self)@, m),
        ensures
            final(self)@ == params_press(old(self)@, m),
    {
        let a = self.params_area;
        self.active_block = ActiveBlock::Params;
        if self.active_request_tab == RequestTab::Body {
            let line = m.row.saturating_sub(a.y + 1) as usize + self.request_scroll as usize;
            let col = m.column.saturating_sub(a.x + 1) as usize;
            let width = a.width.saturating_sub(2) as usize;
            let (idx, p) = point_in(self.draft.body.as_str(), line, col, width, self.wrap_body);
            self.drag_target = DragTarget::RequestSelection;
            self.request_selection = Some(Selection { start: p, end: p });
            self.text_cursor = idx;
            self.drag_last_row = Some(m.row);
        } else {
            self.drag_target = DragTarget::ScrollRequest;
            self.text_cursor = usize::MAX;
            self.drag_last_row = Some(m.row);
            let len = if self.active_request_tab == RequestTab::Query { self.draft.params.len() } else { self.draft.headers.len() };
            let first = a.y + 2;
            if m.row >= first && ((m.row - first) as usize) <= len {
                self.selected_request_row = (m.row - first) as usize;
                if ((m.row - first) as usize) < len {
                    self.begin_edit(ParamEditMode::Value);
                } else {
                    self.param_edit_mode = ParamEditMode::Off;
                    self.edit_backup = None;
                }
            }
        }
    }

    fn press_areas(&mut self, m: MouseInput, project: Option<&RataProject>) -> (t: Task)
        requires
            screen_fits(old(self)@, m),
        ensures
            final(self)@ == area_press(old(self)@, m, project).0,
            t@ == area_press(old(self)@, m, project).1,
    {
        let cr = self.collections_area.right();
        if m.column == cr.saturating_sub(1) || m.column == cr {
            self.active_block = ActiveBlock::Collections;
            self.drag_target = DragTarget::Collections;
            return Task::Idle;
        }
        if self.request_area.contains(m.column, m.row) {
            if self.send_button_area.contains(m.column, m.row) {
                return self.send();
            }
            self.press_url(m);
            return Task::Idle;
        }
        if m.column >= self.request_area.x {
            if m.row == self.params_area.y.saturating_sub(1) || m.row == self.params_area.y {
                self.active_block = ActiveBlock::Params;
                self.text_cursor = usize::MAX;
                self.drag_target = DragTarget::Request;
                return Task::Idle;
            }
            if m.row == self.response_area.y.saturating_sub(1) || m.row == self.response_area.y {
                self.active_block = ActiveBlock::Response;
                self.drag_target = DragTarget::Response;
                return Task::Idle;
            }
        }
        if self.response_area.contains(m.column, m.row) {
            self.press_response(m);
            return Task::Idle;
        }
        if self.params_area.contains(m.column, m.row) {
            self.press_params(m);
            return Task::Idle;
        }
        self.press_list(m, project)
    }

    fn press_tabs(&mut self, m: MouseInput, project: Option<&RataProject>) -> (t: Task)
        requires
            screen_fits(old(self)@, m),
        ensures
            final(self)@ == tab_press(old(self)@, m, project).0,
            t@ == tab_press(old(self)@, m, project).1,
    {
        match self.response_tab_at(m.column, m.row, self.response_tab_origin) {
            Some(tab) => {
                self.active_response_tab = tab;
                self.response_scroll = 0;
                self.active_block = ActiveBlock::Response;
                self.text_selection = None;
                return Task::Idle;
            },
            None => {},
        }
        match self.request_tab_at(m.column, m.row) {
            Some(tab) => {
                self.active_request_tab = tab;
                self.active_block = ActiveBlock::Params;
                self.text_cursor = usize::MAX;
                self.selected_request_row = 0;
                return Task::Idle;
            },
            None => {},
        }
        self.press_areas(m, project)
    }

    fn press_examples(&mut self, m: MouseInput, project: Option<&RataProject>) -> (t: Task)
        requires
            screen_fits(old(self)@, m),
        ensures
            final(self)@ == examples_press(old(self)@, m, project).0,
            t@ == examples_press(old(self)@, m, project).1,
    {
        let right = self.request_area.right();
        let toggle = m.row == self.request_area.y && m.column >= right.saturating_sub(14) && m.column < right;
        let inside = self.examples_dropdown_open && self.examples_area.contains(m.column, m.row);
        if self.examples_dropdown_open && !toggle && !inside {
            self.examples_dropdown_open = false;
        }
        if toggle {
            self.examples_dropdown_open = !self.examples_dropdown_open;
            if self.examples_dropdown_open {
                self.active_block = ActiveBlock::Examples;
            } else {
                self.active_block = ActiveBlock::Request;
                self.text_cursor = usize::MAX;
            }
            return Task::Idle;
        }
        if inside {
            let row = m.row.saturating_sub(self.examples_area.y + 1);
            let t = self.example_task(project, row as usize);
            self.active_block = ActiveBlock::Request;
            self.examples_dropdown_open = false;
            return t;
        }
        self.press_tabs(m, project)
    }

    fn press(&mut self, m: MouseInput, project: Option<&RataProject>) -> (t: Task)
        requires
            screen_fits(old(self)@, m),
        ensures
            final(self)@ == press_step(old(self)@, m, project).0,
            t@ == press_step(old(self)@, m, project).1,
    {
        let a = self.request_area;
        let len = method_button_width(self.draft.method);
        let on_button = m.row == a.y + 1 && m.column >= a.x + 1 && m.column < a.x + 1 + len;
        let inside = self.method_dropdown_open && self.method_dropdown_area.contains(m.column, m.row);
        if self.method_dropdown_open && !on_button && !inside {
            self.method_dropdown_open = false;
        }
        if on_button {
            self.method_dropdown_open = !self.method_dropdown_open;
            if self.method_dropdown_open {
                self.active_block = ActiveBlock::MethodDropdown;
                self.selected_method_row = method_row_of(self.draft.method);
            } else {
                self.active_block = ActiveBlock::Request;
                self.text_cursor = usize::MAX;
            }
            return Task::Idle;
        }
        if inside {
            self.active_block = ActiveBlock::Request;
            self.method_dropdown_open = false;
            let row = m.row.saturating_sub(self.method_dropdown_area.y + 1);
            if row < 5 {
                let ms = crate::method::all_methods();
                self.draft.method = ms[row as usize];
                return self.handle_url_edited(project);
            }
            return Task::Idle;
        }
        self.press_examples(m, project)
    }

    /// Handles a mouse event (see `mouse_step`): gives the work asked of the program.
    pub fn handle_mouse(&mut self, m: MouseInput, project: Option<&RataProject>) -> (t: Task)
        requires
            mouse_fits(old(self)@, m),
        ensures
            final(self)@ == mouse_step(old(self)@, m, project).0,
            t@ == mouse_step(old(self)@, m, project).1,
    {
        if self.error_popup.is_some() {
            return self.popup_mouse(m);
        }
        match m.kind {
            MouseKind::ScrollUp => {
                self.wheel(m, false);
                Task::Idle
            },
            MouseKind::ScrollDown => {
                self.wheel(m, true);
                Task::Idle
            },
            MouseKind::LeftDrag => {
                self.drag(m);
                Task::Idle
            },
            MouseKind::LeftUp => self.release(),
            MouseKind::LeftDown => self.press(m, project),
            MouseKind::Other => Task::Idle,
        }
    }
}


/// Releasing the left button ends every drag, unless an error is shown.
pub proof fn law_release_ends_drag(s: AppValue, m: MouseInput, project: Option<&RataProject>)
    requires
        s.error_popup is None,
        m.kind == MouseKind::LeftUp,
    ensures
        mouse_step(s, m, project).0.drag_target == DragTarget::Nothing,
{
}

/// A release copies exactly the selected text of the response (when it is not empty)
/// after a selection drag there.
pub proof fn law_release_copies_response_selection(s: AppValue, m: MouseInput, sel: Selection, project: Option<&RataProject>)
    requires
        s.error_popup is None,
        m.kind == MouseKind::LeftUp,
        s.drag_target == DragTarget::ResponseSelection,
        s.text_selection == Some(sel),
        selection_text(response_text_spec(s), sel).len() > 0,
    ensures
        mouse_step(s, m, project).1 == TaskValue::Copy(selection_text(response_text_spec(s), sel)),
{
}

/// Whether two states have the same panel sizes.
pub open spec fn same_sizes(a: AppValue, b: AppValue) -> bool {
    a.collections_width == b.collections_width && a.request_height == b.request_height
        && a.response_height_percent == b.response_height_percent
}

/// Whether the panel sizes lie in the ranges the borders can be dragged to.
pub open spec fn sizes_in_range(s: AppValue) -> bool {
    10 <= s.collections_width <= 120 && 3 <= s.request_height <= 20 && 10 <= s.response_height_percent <= 90
}

proof fn lemma_list_press_sizes(s: AppValue, m: MouseInput, project: Option<&RataProject>)
    ensures
        same_sizes(list_press(s, m, project).0, s),
{
}

proof fn lemma_area_press_sizes(s: AppValue, m: MouseInput, project: Option<&RataProject>)
    ensures
        same_sizes(area_press(s, m, project).0, s),
{
    lemma_list_press_sizes(s, m, project);
}

proof fn lemma_examples_press_sizes(s: AppValue, m: MouseInput, project: Option<&RataProject>)
    ensures
        same_sizes(examples_press(s, m, project).0, s),
{
    let right = s.request_area.right_spec();
    let toggle = m.row == s.request_area.y && m.column >= sat_sub16(right as int, 14) && m.column < right;
    let inside = s.examples_dropdown_open && s.examples_area.holds(m.column, m.row);
    let s1 = if s.examples_dropdown_open && !toggle && !inside { AppValue { examples_dropdown_open: false, ..s } } else { s };
    lemma_tab_press_sizes(s1, m, project);
}

proof fn lemma_tab_press_sizes(s: AppValue, m: MouseInput, project: Option<&RataProject>)
    ensures
        same_sizes(tab_press(s, m, project).0, s),
{
    lemma_area_press_sizes(s, m, project);
}

proof fn lemma_press_sizes(s: AppValue, m: MouseInput, project: Option<&RataProject>)
    ensures
        same_sizes(press_step(s, m, project).0, s),
{
    let on_button = m.row == s.request_area.y + 1 && m.column >= s.request_area.x + 1
        && m.column < s.request_area.x + 1 + method_button_len(s.draft.method);
    let inside = s.method_dropdown_open && s.method_dropdown_area.holds(m.column, m.row);
    let s1 = if s.method_dropdown_open && !on_button && !inside { AppValue { method_dropdown_open: false, ..s } } else { s };
    lemma_examples_press_sizes(s1, m, project);
}

/// Every mouse event leaves the panel sizes in the ranges the borders can be dragged to,
/// and dragging the collections border sets the width to the column, clamped to 10..=120.
#[verifier::rlimit(40)]
pub proof fn law_mouse_keeps_panel_sizes(s: AppValue, m: MouseInput, project: Option<&RataProject>)
    requires
        sizes_in_range(s),
    ensures
        sizes_in_range(mouse_step(s, m, project).0),
        s.error_popup is None && s.drag_target == DragTarget::Collections && m.kind == MouseKind::LeftDrag
            ==> mouse_step(s, m, project).0.collections_width == clamp16(m.column as int, 10, 120),
{
    match s.error_popup {
        Some(e) => {},
        None => match m.kind {
            MouseKind::LeftDown => {
                lemma_press_sizes(s, m, project);
            },
            _ => {},
        },
    }
}

} // verus!
