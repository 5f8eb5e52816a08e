//! What a key press does to the client.
use vstd::prelude::*;
use crate::method::{HttpMethod, methods_spec};
use crate::project::RataProject;
use crate::editing::{min_nat, insert_char_at, remove_char_at, line_end_target, line_start_target, cursor_up_target,
    cursor_down_target, move_cursor_to_line_end, move_cursor_to_line_start, move_cursor_up, move_cursor_down};
use crate::tabs::{cursor_scroll, cursor_fits, current_text_len, table_rows, sat_sub16, response_scrolled_down};
use crate::flow::{send_spec, send_task, step_spec, example_task, url_edited_spec, url_edited_task};
use crate::tui::{TuiApp, AppValue, DraftValue, ParamValue, ParamState, AppAction, Task, TaskValue, KeyInput, KeyCode,
    ActiveBlock, RequestTab, ParamEditMode, params_view};

verus! {

// ---------------------------------------------------------------------------
// Arithmetic and small state changes
// ---------------------------------------------------------------------------

pub open spec fn usize_sat_add(a: usize, b: usize) -> usize {
    if a + b > usize::MAX { usize::MAX } else { (a + b) as usize }
}

pub open spec fn usize_sat_sub(a: usize, b: usize) -> usize {
    if a < b { 0 } else { (a - b) as usize }
}

pub open spec fn usize_min(a: usize, b: usize) -> usize {
    if a <= b { a } else { b }
}

/// A text with `ch` put before position `cursor` (at the end when the cursor is past it).
pub open spec fn inserted(t: Seq<char>, cursor: usize, ch: char) -> Seq<char> {
    t.insert(min_nat(cursor as int, t.len() as int), ch)
}

/// A text without the character before position `cursor` (the last one when the cursor
/// is past the end); unchanged at position 0 or when empty.
pub open spec fn removed(t: Seq<char>, cursor: usize) -> Seq<char> {
    if t.len() == 0 || cursor == 0 { t } else { t.remove(min_nat(cursor as int, t.len() as int) - 1) }
}

pub open spec fn with_cursor(s: AppValue, c: usize) -> AppValue {
    AppValue { text_cursor: c, ..s }
}

/// The state with the body scrolled so that the cursor is in view.
pub open spec fn shown(s: AppValue) -> AppValue {
    AppValue { request_scroll: cursor_scroll(s), ..s }
}

/// The state with the rows of the active table replaced.
pub open spec fn with_table(s: AppValue, rows: Seq<ParamValue>) -> AppValue {
    if s.active_request_tab == RequestTab::Query {
        AppValue { draft: DraftValue { params: rows, ..s.draft }, ..s }
    } else {
        AppValue { draft: DraftValue { headers: rows, ..s.draft }, ..s }
    }
}

/// Whether the cursor edits the body.
pub open spec fn in_body(s: AppValue) -> bool {
    s.active_block == ActiveBlock::Params && s.active_request_tab == RequestTab::Body
}

/// Whether the focus is on a table of rows (query parameters or headers).
pub open spec fn in_table(s: AppValue) -> bool {
    s.active_block == ActiveBlock::Params && s.active_request_tab != RequestTab::Body
}

/// A row with its `enabled` flag flipped.
pub open spec fn toggled(p: ParamValue) -> ParamValue {
    ParamValue { enabled: !p.enabled, ..p }
}

/// The empty row added at the end of a table.
pub open spec fn new_row() -> ParamValue {
    ParamValue { key: seq![], value: seq![], enabled: true, required: false }
}

/// Whether the keys that move in lists act on the focused panel.
pub open spec fn list_focus(s: AppValue) -> bool {
    s.active_block == ActiveBlock::Collections || s.active_block == ActiveBlock::Examples
        || s.active_block == ActiveBlock::Response
        || (s.active_block == ActiveBlock::Params && s.param_edit_mode == ParamEditMode::Off
            && s.active_request_tab != RequestTab::Body)
}

pub open spec fn idle(s: AppValue) -> (AppValue, TaskValue) {
    (s, TaskValue::Idle)
}

// ---------------------------------------------------------------------------
// Each key
// ---------------------------------------------------------------------------

/// Control-E: in a table, starts editing the selected row's value (cursor at its end) or
/// stops editing.
pub open spec fn ctrl_e_spec(s: AppValue) -> AppValue {
    if in_table(s) {
        if s.param_edit_mode == ParamEditMode::Off {
            begin_edit(s, ParamEditMode::Value)
        } else {
            edit_saved(s)
        }
    } else {
        s
    }
}

/// The key and value of the selected row, when a row is selected.
pub open spec fn backup_of(s: AppValue) -> Option<(Seq<char>, Seq<char>)> {
    let rows = table_rows(s);
    if s.selected_request_row < rows.len() {
        Some((rows[s.selected_request_row as int].key, rows[s.selected_request_row as int].value))
    } else {
        None
    }
}

/// Starts editing the selected row's key or value, the cursor at its end; the row's key
/// and value are kept so that Escape can put them back.
pub open spec fn begin_edit(s: AppValue, mode: ParamEditMode) -> AppValue {
    AppValue { param_edit_mode: mode, text_cursor: usize::MAX, edit_backup: backup_of(s), ..s }
}

/// Ends the edit of a row keeping what was typed.
pub open spec fn edit_saved(s: AppValue) -> AppValue {
    AppValue { param_edit_mode: ParamEditMode::Off, edit_backup: None, ..s }
}

/// While a row of a table is edited, the row with the key and value it had when the
/// edit began put back.
pub open spec fn edit_cancelled(s: AppValue) -> AppValue {
    let rows = table_rows(s);
    let i = s.selected_request_row as int;
    match s.edit_backup {
        Some(b) => if in_table(s) && s.param_edit_mode != ParamEditMode::Off && i < rows.len() {
            with_table(s, rows.update(i, ParamValue { key: b.0, value: b.1, ..rows[i] }))
        } else {
            s
        },
        None => s,
    }
}

/// Escape: cancels the edit of a row (its key and value go back to what they were when
/// the edit began) and closes the open menus, which gives the focus back to the URL.
pub open spec fn esc_spec(s: AppValue) -> AppValue {
    let s1 = edit_saved(edit_cancelled(s));
    let s2 = if s1.examples_dropdown_open {
        AppValue { examples_dropdown_open: false, active_block: ActiveBlock::Request, ..s1 }
    } else {
        s1
    };
    if s2.method_dropdown_open {
        AppValue { method_dropdown_open: false, active_block: ActiveBlock::Request, ..s2 }
    } else {
        s2
    }
}

/// Tab: while a row is edited, moves from its key to its value, or from its value back to
/// its key when the row is optional; the cursor goes to the end.
pub open spec fn tab_spec(s: AppValue) -> AppValue {
    if in_table(s) && s.param_edit_mode != ParamEditMode::Off && s.selected_request_row < table_rows(s).len() {
        let p = table_rows(s)[s.selected_request_row as int];
        let mode = if s.param_edit_mode == ParamEditMode::Key {
            ParamEditMode::Value
        } else if !p.required {
            ParamEditMode::Key
        } else {
            s.param_edit_mode
        };
        AppValue { param_edit_mode: mode, text_cursor: usize::MAX, ..s }
    } else {
        s
    }
}

/// Left: the cursor moves one character back (clamped to the text first).
pub open spec fn left_spec(s: AppValue) -> AppValue {
    shown(with_cursor(s, usize_sat_sub(usize_min(s.text_cursor, current_text_len(s) as usize), 1)))
}

/// Right: the cursor moves one character forward (clamped to the text first).
pub open spec fn right_spec(s: AppValue) -> AppValue {
    shown(with_cursor(s, usize_sat_add(usize_min(s.text_cursor, current_text_len(s) as usize), 1)))
}

/// Where End puts the cursor: the end of the line's text in the body, else the end of
/// the text.
pub open spec fn end_target(s: AppValue) -> usize {
    if in_body(s) { line_end_target(s.draft.body, s.text_cursor as int) as usize } else { current_text_len(s) as usize }
}

/// Where Home puts the cursor: the start of the line's text in the body, else 0.
pub open spec fn home_target(s: AppValue) -> usize {
    if in_body(s) { line_start_target(s.draft.body, s.text_cursor as int) as usize } else { 0 }
}

/// Up: scrolls the response, selects the previous operation, moves the body cursor up,
/// selects the previous row (or puts the editing cursor at the start), or moves up in a
/// menu, depending on the focus.
pub open spec fn up_spec(s: AppValue, project: Option<&RataProject>) -> (AppValue, TaskValue) {
    if s.active_block == ActiveBlock::Response {
        idle(AppValue { response_scroll: sat_sub16(s.response_scroll as int, 1), ..s })
    } else if s.active_block == ActiveBlock::Collections {
        step_spec(s, project, false)
    } else if s.active_block == ActiveBlock::Params {
        if s.active_request_tab == RequestTab::Body {
            idle(shown(with_cursor(s, cursor_up_target(s.draft.body, s.text_cursor as int) as usize)))
        } else if s.param_edit_mode == ParamEditMode::Off {
            idle(AppValue { selected_request_row: usize_sat_sub(s.selected_request_row, 1), text_cursor: usize::MAX, ..s })
        } else {
            idle(with_cursor(s, 0))
        }
    } else if s.active_block == ActiveBlock::Examples {
        idle(AppValue { selected_example_row: usize_sat_sub(s.selected_example_row, 1), ..s })
    } else if s.active_block == ActiveBlock::MethodDropdown {
        idle(AppValue { selected_method_row: usize_sat_sub(s.selected_method_row, 1), ..s })
    } else {
        idle(s)
    }
}

/// Down: the counterpart of Up; rows stop at the "add" row, menus at their last entry.
pub open spec fn down_spec(s: AppValue, project: Option<&RataProject>) -> (AppValue, TaskValue) {
    if s.active_block == ActiveBlock::Response {
        idle(AppValue { response_scroll: response_scrolled_down(s, 1), ..s })
    } else if s.active_block == ActiveBlock::Collections {
        step_spec(s, project, true)
    } else if s.active_block == ActiveBlock::Params {
        if s.active_request_tab == RequestTab::Body {
            idle(shown(with_cursor(s, cursor_down_target(s.draft.body, s.text_cursor as int) as usize)))
        } else if s.param_edit_mode == ParamEditMode::Off {
            idle(AppValue {
                selected_request_row: usize_min(usize_sat_add(s.selected_request_row, 1), table_rows(s).len() as usize),
                text_cursor: usize::MAX,
                ..s
            })
        } else {
            idle(with_cursor(s, usize::MAX))
        }
    } else if s.active_block == ActiveBlock::Examples {
        idle(AppValue {
            selected_example_row: usize_min(usize_sat_add(s.selected_example_row, 1), usize_sat_sub(s.model.examples.len() as usize, 1)),
            ..s
        })
    } else if s.active_block == ActiveBlock::MethodDropdown {
        idle(AppValue { selected_method_row: usize_min(usize_sat_add(s.selected_method_row, 1), 4), ..s })
    } else {
        idle(s)
    }
}

/// The state and the task after the method was changed to `m` from a menu, which closes.
pub open spec fn method_chosen(s: AppValue, m: HttpMethod, project: Option<&RataProject>) -> (AppValue, TaskValue) {
    let s1 = AppValue { draft: DraftValue { method: m, ..s.draft }, ..s };
    let s2 = url_edited_spec(s1, project);
    (AppValue { method_dropdown_open: false, active_block: ActiveBlock::Request, ..s2 }, url_edited_task(s1, project))
}

/// Enter: sends from the URL; breaks the line in the body; in a table, adds a row from
/// the "add" row (and edits its key) or starts editing the selected row's value, and
/// while a row is edited, saves it; loads the chosen example; takes the chosen method.
pub open spec fn enter_spec(s: AppValue, project: Option<&RataProject>) -> (AppValue, TaskValue) {
    if s.active_block == ActiveBlock::Request {
        (send_spec(s), send_task(s))
    } else if in_body(s) {
        idle(shown(AppValue {
            draft: DraftValue { body: inserted(s.draft.body, s.text_cursor, '\n'), ..s.draft },
            text_cursor: (s.text_cursor + 1) as usize,
            ..s
        }))
    } else if in_table(s) && s.param_edit_mode == ParamEditMode::Off {
        let rows = table_rows(s);
        if s.selected_request_row == rows.len() {
            idle(AppValue { param_edit_mode: ParamEditMode::Key, text_cursor: usize::MAX, edit_backup: Some((seq![], seq![])),
                ..with_table(s, rows.push(new_row())) })
        } else if s.selected_request_row < rows.len() {
            idle(begin_edit(s, ParamEditMode::Value))
        } else {
            idle(s)
        }
    } else if in_table(s) {
        idle(edit_saved(s))
    } else if s.active_block == ActiveBlock::Examples {
        (AppValue { examples_dropdown_open: false, active_block: ActiveBlock::Request, ..s },
            example_task(s, project, s.selected_example_row as int))
    } else if s.active_block == ActiveBlock::MethodDropdown {
        if s.selected_method_row < 5 {
            method_chosen(s, methods_spec()[s.selected_method_row as int], project)
        } else {
            idle(AppValue { method_dropdown_open: false, active_block: ActiveBlock::Request, ..s })
        }
    } else {
        idle(s)
    }
}

/// The state after a text edit of the selected row's key or value.
pub open spec fn row_text_edit(s: AppValue, key: bool, t: Seq<char>, cursor: usize) -> AppValue {
    let rows = table_rows(s);
    let p = rows[s.selected_request_row as int];
    let q = if key { ParamValue { key: t, ..p } } else { ParamValue { value: t, ..p } };
    with_cursor(with_table(s, rows.update(s.selected_request_row as int, q)), cursor)
}

/// Backspace: deletes the character before the cursor in the URL (which is then
/// followed), in the body, or in the key (of an optional row) or value being edited.
pub open spec fn backspace_spec(s: AppValue, project: Option<&RataProject>) -> (AppValue, TaskValue) {
    if s.active_block == ActiveBlock::Request {
        let s1 = AppValue {
            draft: DraftValue { url: removed(s.draft.url, s.text_cursor), ..s.draft },
            text_cursor: usize_sat_sub(s.text_cursor, 1),
            ..s
        };
        (url_edited_spec(s1, project), url_edited_task(s1, project))
    } else if in_body(s) {
        idle(AppValue {
            draft: DraftValue { body: removed(s.draft.body, s.text_cursor), ..s.draft },
            text_cursor: usize_sat_sub(s.text_cursor, 1),
            ..s
        })
    } else if in_table(s) && s.param_edit_mode != ParamEditMode::Off && s.selected_request_row < table_rows(s).len() {
        let p = table_rows(s)[s.selected_request_row as int];
        if s.param_edit_mode == ParamEditMode::Key && !p.required {
            idle(row_text_edit(s, true, removed(p.key, s.text_cursor), usize_sat_sub(s.text_cursor, 1)))
        } else if s.param_edit_mode == ParamEditMode::Value {
            idle(row_text_edit(s, false, removed(p.value, s.text_cursor), usize_sat_sub(s.text_cursor, 1)))
        } else {
            idle(s)
        }
    } else {
        idle(s)
    }
}

/// A character: `k` and `j` move in lists (`j` stops at the "add" row of a table, as Down does); space flips the selected optional row; `e`
/// starts editing the URL when nothing has the focus; otherwise the character is typed
/// into the URL (which is then followed), the body, or the key (of an optional row) or
/// value being edited.
pub open spec fn char_spec(s: AppValue, c: char, project: Option<&RataProject>) -> (AppValue, TaskValue) {
    if c == 'k' && list_focus(s) {
        if s.active_block == ActiveBlock::Response {
            idle(AppValue { response_scroll: sat_sub16(s.response_scroll as int, 1), ..s })
        } else if s.active_block == ActiveBlock::Collections {
            step_spec(s, project, false)
        } else if s.active_block == ActiveBlock::Params {
            idle(AppValue { selected_request_row: usize_sat_sub(s.selected_request_row, 1), ..s })
        } else {
            idle(AppValue { selected_example_row: usize_sat_sub(s.selected_example_row, 1), ..s })
        }
    } else if c == 'j' && list_focus(s) {
        if s.active_block == ActiveBlock::Response {
            idle(AppValue { response_scroll: response_scrolled_down(s, 1), ..s })
        } else if s.active_block == ActiveBlock::Collections {
            step_spec(s, project, true)
        } else if s.active_block == ActiveBlock::Params {
            idle(AppValue {
                selected_request_row: usize_min(usize_sat_add(s.selected_request_row, 1), table_rows(s).len() as usize),
                ..s
            })
        } else {
            idle(AppValue {
                selected_example_row: usize_min(usize_sat_add(s.selected_example_row, 1), usize_sat_sub(s.model.examples.len() as usize, 1)),
                ..s
            })
        }
    } else if c == ' ' && in_table(s) && s.param_edit_mode == ParamEditMode::Off {
        let rows = table_rows(s);
        if s.selected_request_row < rows.len() && !rows[s.selected_request_row as int].required {
            idle(with_table(s, rows.update(s.selected_request_row as int, toggled(rows[s.selected_request_row as int]))))
        } else {
            idle(s)
        }
    } else if c == 'e' && s.active_block == ActiveBlock::Nothing {
        idle(AppValue { active_block: ActiveBlock::Request, text_cursor: usize::MAX, ..s })
    } else if s.active_block == ActiveBlock::Request {
        let s1 = AppValue {
            draft: DraftValue { url: inserted(s.draft.url, s.text_cursor, c), ..s.draft },
            text_cursor: usize_sat_add(s.text_cursor, 1),
            ..s
        };
        (url_edited_spec(s1, project), url_edited_task(s1, project))
    } else if in_body(s) {
        idle(AppValue {
            draft: DraftValue { body: inserted(s.draft.body, s.text_cursor, c), ..s.draft },
            text_cursor: usize_sat_add(s.text_cursor, 1),
            ..s
        })
    } else if in_table(s) && s.param_edit_mode != ParamEditMode::Off && s.selected_request_row < table_rows(s).len() {
        let p = table_rows(s)[s.selected_request_row as int];
        if s.param_edit_mode == ParamEditMode::Key && !p.required {
            idle(row_text_edit(s, true, inserted(p.key, s.text_cursor, c), usize_sat_add(s.text_cursor, 1)))
        } else if s.param_edit_mode == ParamEditMode::Value {
            idle(row_text_edit(s, false, inserted(p.value, s.text_cursor, c), usize_sat_add(s.text_cursor, 1)))
        } else {
            idle(s)
        }
    } else {
        idle(s)
    }
}

/// Whether a key moves the cursor (and so drops the selections).
pub open spec fn is_move(code: KeyCode) -> bool {
    code == KeyCode::Left || code == KeyCode::Right || code == KeyCode::Up || code == KeyCode::Down
        || code == KeyCode::Home || code == KeyCode::End
}

/// Whether a key is Control with the given letter.
pub open spec fn ctrl_char(key: KeyInput, c: char) -> bool {
    key.ctrl && key.code == KeyCode::Char(c)
}

/// The state without text selections when the key moves the cursor.
pub open spec fn unselected(s: AppValue, key: KeyInput) -> AppValue {
    if is_move(key.code) { AppValue { text_selection: None, request_selection: None, ..s } } else { s }
}

/// What a key does: while an error is shown, Enter or Escape closes it and nothing else
/// happens; Control-Q quits; Control-E, Control-S (send) and Control-W (wrap the body)
/// act anywhere; every other key acts on the focused panel (see the `_spec` functions of
/// each key). Gives the new state, whether to go on, and the work asked of the program.
pub open spec fn key_step(s: AppValue, key: KeyInput, project: Option<&RataProject>) -> (AppValue, AppAction, TaskValue) {
    if s.error_popup is Some {
        let t = if key.code == KeyCode::Enter || key.code == KeyCode::Esc { AppValue { error_popup: None, ..s } } else { s };
        (t, AppAction::Continue, TaskValue::Idle)
    } else if ctrl_char(key, 'q') {
        (s, AppAction::Quit, TaskValue::Idle)
    } else if ctrl_char(key, 'e') {
        (ctrl_e_spec(s), AppAction::Continue, TaskValue::Idle)
    } else if ctrl_char(key, 's') {
        (send_spec(s), AppAction::Continue, send_task(s))
    } else if ctrl_char(key, 'w') {
        (AppValue { wrap_body: !s.wrap_body, ..s }, AppAction::Continue, TaskValue::Idle)
    } else {
        let r = plain_step(unselected(s, key), key.code, project);
        (r.0, AppAction::Continue, r.1)
    }
}

/// What a key that is not a Control shortcut does to the focused panel.
#[verifier::opaque]
pub open spec fn plain_step(s1: AppValue, code: KeyCode, project: Option<&RataProject>) -> (AppValue, TaskValue) {
        match code {
            KeyCode::Esc => idle(esc_spec(s1)),
            KeyCode::Tab => idle(tab_spec(s1)),
            KeyCode::Left => idle(left_spec(s1)),
            KeyCode::Right => idle(right_spec(s1)),
            KeyCode::End => idle(shown(with_cursor(s1, end_target(s1)))),
            KeyCode::Home => idle(shown(with_cursor(s1, home_target(s1)))),
            KeyCode::Up => up_spec(s1, project),
            KeyCode::Down => down_spec(s1, project),
            KeyCode::Enter => enter_spec(s1, project),
            KeyCode::Backspace => backspace_spec(s1, project),
            KeyCode::Char(c) => char_spec(s1, c, project),
            KeyCode::Other => idle(s1),
        }
}

/// Whether a key can be handled within the machine's integers: the arithmetic
/// on the cursor and on the body's scroll offset must not overflow.
pub open spec fn key_fits(s: AppValue, key: KeyInput) -> bool {
    if s.error_popup is Some || ctrl_char(key, 'q') || ctrl_char(key, 'e') || ctrl_char(key, 's') || ctrl_char(key, 'w') {
        true
    } else {
        plain_fits(unselected(s, key), key.code)
    }
}

/// Whether a key that is not a Control shortcut can be handled within the machine's
/// integers (see `key_fits`).
#[verifier::opaque]
pub open spec fn plain_fits(s1: AppValue, code: KeyCode) -> bool {
    match code {
        KeyCode::Left => cursor_fits(with_cursor(s1, usize_sat_sub(usize_min(s1.text_cursor, current_text_len(s1) as usize), 1))),
        KeyCode::Right => cursor_fits(with_cursor(s1, usize_sat_add(usize_min(s1.text_cursor, current_text_len(s1) as usize), 1))),
        KeyCode::End => cursor_fits(with_cursor(s1, end_target(s1))),
        KeyCode::Home => cursor_fits(with_cursor(s1, home_target(s1))),
        KeyCode::Up => in_body(s1) ==> cursor_fits(with_cursor(s1, cursor_up_target(s1.draft.body, s1.text_cursor as int) as usize)),
        KeyCode::Down => in_body(s1) ==> cursor_fits(with_cursor(s1, cursor_down_target(s1.draft.body, s1.text_cursor as int) as usize)),
        KeyCode::Enter => in_body(s1) ==> s1.text_cursor < usize::MAX && cursor_fits(AppValue {
            draft: DraftValue { body: inserted(s1.draft.body, s1.text_cursor, '\n'), ..s1.draft },
            text_cursor: (s1.text_cursor + 1) as usize,
            ..s1
        }),
        _ => true,
    }
}

// ---------------------------------------------------------------------------
// Rows
// ---------------------------------------------------------------------------

fn toggle_row(rows: &mut Vec<ParamState>, i: usize)
    requires
        i < old(rows)@.len(),
    ensures
        params_view(final(rows)@) == params_view(old(rows)@).update(i as int, toggled(params_view(old(rows)@)[i as int])),
{
    let p = ParamState { key: rows[i].key.clone(), value: rows[i].value.clone(), enabled: !rows[i].enabled, required: rows[i].required };
    let ghost before = params_view(rows@);
    rows.set(i, p);
    assert(params_view(rows@) =~= before.update(i as int, toggled(before[i as int])));
}

fn edit_row_text(rows: &mut Vec<ParamState>, i: usize, key: bool, insert: bool, cursor: usize, ch: char)
    requires
        i < old(rows)@.len(),
    ensures
        ({
            let p = params_view(old(rows)@)[i as int];
            let t = if key { p.key } else { p.value };
            let u = if insert { inserted(t, cursor, ch) } else { removed(t, cursor) };
            params_view(final(rows)@) == params_view(old(rows)@).update(i as int,
                if key { ParamValue { key: u, ..p } } else { ParamValue { value: u, ..p } })
        }),
{
    let ghost before = params_view(rows@);
    let mut k = rows[i].key.clone();
    let mut v = rows[i].value.clone();
    if key {
        if insert { insert_char_at(&mut k, cursor, ch); } else { remove_char_at(&mut k, cursor); }
    } else {
        if insert { insert_char_at(&mut v, cursor, ch); } else { remove_char_at(&mut v, cursor); }
    }
    let p = ParamState { key: k, value: v, enabled: rows[i].enabled, required: rows[i].required };
    rows.set(i, p);
    proof {
        let q = before[i as int];
        let t = if key { q.key } else { q.value };
        let u = if insert { inserted(t, cursor, ch) } else { removed(t, cursor) };
        assert(params_view(rows@) =~= before.update(i as int,
            if key { ParamValue { key: u, ..q } } else { ParamValue { value: u, ..q } }));
    }
}

impl TuiApp {
    fn toggle_selected_row(&mut self)
        requires
            in_table(old(self)@),
            old(self).selected_request_row < table_rows(old(self)@).len(),
        ensures
            final(self)@ == with_table(old(self)@, table_rows(old(self)@).update(old(self).selected_request_row as int,
                toggled(table_rows(old(self)@)[old(self).selected_request_row as int]))),
    {
        if self.active_request_tab == RequestTab::Query {
            toggle_row(&mut self.draft.params, self.selected_request_row);
        } else {
            toggle_row(&mut self.draft.headers, self.selected_request_row);
        }
        assert(self@ =~= with_table(old(self)@, table_rows(old(self)@).update(old(self).selected_request_row as int,
            toggled(table_rows(old(self)@)[old(self).selected_request_row as int]))));
    }

    /// Starts editing the selected row (see `begin_edit`).
    pub(crate) fn begin_edit(&mut self, mode: ParamEditMode)
        requires
            old(self).active_request_tab != RequestTab::Body,
        ensures
            final(self)@ == begin_edit(old(self)@, mode),
    {
        let len = if self.active_request_tab == RequestTab::Query { self.draft.params.len() } else { self.draft.headers.len() };
        let i = self.selected_request_row;
        let backup = if i < len {
            if self.active_request_tab == RequestTab::Query {
                Some((self.draft.params[i].key.clone(), self.draft.params[i].value.clone()))
            } else {
                Some((self.draft.headers[i].key.clone(), self.draft.headers[i].value.clone()))
            }
        } else {
            None
        };
        self.param_edit_mode = mode;
        self.text_cursor = usize::MAX;
        self.edit_backup = backup;
        assert(self@ =~= begin_edit(old(self)@, mode));
    }

    /// Puts back the row being edited (see `edit_cancelled`).
    fn cancel_edit(&mut self)
        ensures
            final(self)@ == edit_cancelled(old(self)@),
    {
        if self.active_block == ActiveBlock::Params && self.active_request_tab != RequestTab::Body
            && self.param_edit_mode != ParamEditMode::Off {
            let len = if self.active_request_tab == RequestTab::Query { self.draft.params.len() } else { self.draft.headers.len() };
            let i = self.selected_request_row;
            if i < len {
                match &self.edit_backup {
                    Some(b) => {
                        let k = b.0.clone();
                        let v = b.1.clone();
                        let ghost rows = table_rows(self@);
                        if self.active_request_tab == RequestTab::Query {
                            let p = ParamState { key: k, value: v, enabled: self.draft.params[i].enabled, required: self.draft.params[i].required };
                            self.draft.params.set(i, p);
                        } else {
                            let p = ParamState { key: k, value: v, enabled: self.draft.headers[i].enabled, required: self.draft.headers[i].required };
                            self.draft.headers.set(i, p);
                        }
                        proof {
                            let b0 = old(self)@.edit_backup->0;
                            assert(table_rows(self@) =~= rows.update(i as int, ParamValue { key: b0.0, value: b0.1, ..rows[i as int] }));
                            assert(self@ =~= edit_cancelled(old(self)@));
                        }
                    },
                    None => {},
                }
            }
        }
    }

    fn edit_selected_row(&mut self, key: bool, insert: bool, ch: char)
        requires
            in_table(old(self)@),
            old(self).selected_request_row < table_rows(old(self)@).len(),
        ensures
            ({
                let s = old(self)@;
                let p = table_rows(s)[s.selected_request_row as int];
                let t = if key { p.key } else { p.value };
                final(self)@ == row_text_edit(s, key,
                    if insert { inserted(t, s.text_cursor, ch) } else { removed(t, s.text_cursor) },
                    if insert { usize_sat_add(s.text_cursor, 1) } else { usize_sat_sub(s.text_cursor, 1) })
            }),
    {
        let c = self.text_cursor;
        if self.active_request_tab == RequestTab::Query {
            edit_row_text(&mut self.draft.params, self.selected_request_row, key, insert, c, ch);
        } else {
            edit_row_text(&mut self.draft.headers, self.selected_request_row, key, insert, c, ch);
        }
        self.text_cursor = if insert { c.saturating_add(1) } else { c.saturating_sub(1) };
        proof {
            let s = old(self)@;
            let p = table_rows(s)[s.selected_request_row as int];
            let t = if key { p.key } else { p.value };
            assert(self@ =~= row_text_edit(s, key,
                if insert { inserted(t, s.text_cursor, ch) } else { removed(t, s.text_cursor) },
                if insert { usize_sat_add(s.text_cursor, 1) } else { usize_sat_sub(s.text_cursor, 1) }));
        }
    }

    fn key_up(&mut self, project: Option<&RataProject>) -> (t: Task)
        requires
            in_body(old(self)@) ==> cursor_fits(with_cursor(old(self)@, cursor_up_target(old(self)@.draft.body, old(self).text_cursor as int) as usize)),
        ensures
            final(self)@ == up_spec(old(self)@, project).0,
            t@ == up_spec(old(self)@, project).1,
    {
        if self.active_block == ActiveBlock::Response {
            self.scroll_response_up(1);
        } else if self.active_block == ActiveBlock::Collections {
            return self.step_operation(project, false);
        } else if self.active_block == ActiveBlock::Params {
            if self.active_request_tab == RequestTab::Body {
                self.text_cursor = move_cursor_up(self.draft.body.as_str(), self.text_cursor);
                self.ensure_cursor_visible();
            } else if self.param_edit_mode == ParamEditMode::Off {
                self.selected_request_row = self.selected_request_row.saturating_sub(1);
                self.text_cursor = usize::MAX;
            } else {
                self.text_cursor = 0;
            }
        } else if self.active_block == ActiveBlock::Examples {
            self.selected_example_row = self.selected_example_row.saturating_sub(1);
        } else if self.active_block == ActiveBlock::MethodDropdown {
            self.selected_method_row = self.selected_method_row.saturating_sub(1);
        }
        Task::Idle
    }

    fn key_down(&mut self, project: Option<&RataProject>) -> (t: Task)
        requires
            in_body(old(self)@) ==> cursor_fits(with_cursor(old(self)@, cursor_down_target(old(self)@.draft.body, old(self).text_cursor as int) as usize)),
        ensures
            final(self)@ == down_spec(old(self)@, project).0,
            t@ == down_spec(old(self)@, project).1,
    {
        if self.active_block == ActiveBlock::Response {
            self.scroll_response_down(1);
        } else if self.active_block == ActiveBlock::Collections {
            return self.step_operation(project, true);
        } else if self.active_block == ActiveBlock::Params {
            if self.active_request_tab == RequestTab::Body {
                self.text_cursor = move_cursor_down(self.draft.body.as_str(), self.text_cursor);
                self.ensure_cursor_visible();
            } else if self.param_edit_mode == ParamEditMode::Off {
                let max = if self.active_request_tab == RequestTab::Query { self.draft.params.len() } else { self.draft.headers.len() };
                let next = self.selected_request_row.saturating_add(1);
                self.selected_request_row = if next <= max { next } else { max };
                self.text_cursor = usize::MAX;
            } else {
                self.text_cursor = usize::MAX;
            }
        } else if self.active_block == ActiveBlock::Examples {
            let max = self.model.examples.len().saturating_sub(1);
            let next = self.selected_example_row.saturating_add(1);
            self.selected_example_row = if next <= max { next } else { max };
        } else if self.active_block == ActiveBlock::MethodDropdown {
            let next = self.selected_method_row.saturating_add(1);
            self.selected_method_row = if next <= 4 { next } else { 4 };
        }
        Task::Idle
    }

    fn choose_method(&mut self, project: Option<&RataProject>) -> (t: Task)
        requires
            old(self).active_block == ActiveBlock::MethodDropdown,
        ensures
            final(self)@ == (if old(self).selected_method_row < 5 {
                method_chosen(old(self)@, methods_spec()[old(self).selected_method_row as int], project).0
            } else {
                AppValue { method_dropdown_open: false, active_block: ActiveBlock::Request, ..old(self)@ }
            }),
            t@ == (if old(self).selected_method_row < 5 {
                method_chosen(old(self)@, methods_spec()[old(self).selected_method_row as int], project).1
            } else {
                TaskValue::Idle
            }),
    {
        let mut t = Task::Idle;
        if self.selected_method_row < 5 {
            let ms = crate::method::all_methods();
            self.draft.method = ms[self.selected_method_row];
            t = self.handle_url_edited(project);
        }
        self.method_dropdown_open = false;
        self.active_block = ActiveBlock::Request;
        t
    }

    fn enter_table(&mut self)
        requires
            in_table(old(self)@),
            old(self).param_edit_mode == ParamEditMode::Off,
        ensures
            final(self)@ == enter_spec(old(self)@, None).0,
    {
        let len = if self.active_request_tab == RequestTab::Query { self.draft.params.len() } else { self.draft.headers.len() };
        if self.selected_request_row == len {
            let row = ParamState { key: String::new(), value: String::new(), enabled: true, required: false };
            let ghost rows = table_rows(self@);
            if self.active_request_tab == RequestTab::Query {
                self.draft.params.push(row);
            } else {
                self.draft.headers.push(row);
            }
            self.param_edit_mode = ParamEditMode::Key;
            self.text_cursor = usize::MAX;
            self.edit_backup = Some((String::new(), String::new()));
            proof {
                assert(row@ == new_row());
                assert(self@ =~= (AppValue { param_edit_mode: ParamEditMode::Key, text_cursor: usize::MAX,
                    edit_backup: Some((seq![], seq![])), ..with_table(old(self)@, rows.push(new_row())) }));
            }
        } else if self.selected_request_row < len {
            self.begin_edit(ParamEditMode::Value);
        }
    }

    fn key_enter(&mut self, project: Option<&RataProject>) -> (t: Task)
        requires
            in_body(old(self)@) ==> old(self).text_cursor < usize::MAX && cursor_fits(AppValue {
                draft: DraftValue { body: inserted(old(self)@.draft.body, old(self).text_cursor, '\n'), ..old(self)@.draft },
                text_cursor: (old(self).text_cursor + 1) as usize,
                ..old(self)@
            }),
        ensures
            final(self)@ == enter_spec(old(self)@, project).0,
            t@ == enter_spec(old(self)@, project).1,
    {
        if self.active_block == ActiveBlock::Request {
            self.send()
        } else if self.active_block == ActiveBlock::Params && self.active_request_tab == RequestTab::Body {
            insert_char_at(&mut self.draft.body, self.text_cursor, '\n');
            self.text_cursor = self.text_cursor + 1;
            self.ensure_cursor_visible();
            Task::Idle
        } else if self.active_block == ActiveBlock::Params && self.active_request_tab != RequestTab::Body
            && self.param_edit_mode == ParamEditMode::Off {
            self.enter_table();
            Task::Idle
        } else if self.active_block == ActiveBlock::Params && self.active_request_tab != RequestTab::Body {
            self.param_edit_mode = ParamEditMode::Off;
            self.edit_backup = None;
            Task::Idle
        } else if self.active_block == ActiveBlock::Examples {
            let t = self.example_task(project, self.selected_example_row);
            self.examples_dropdown_open = false;
            self.active_block = ActiveBlock::Request;
            t
        } else if self.active_block == ActiveBlock::MethodDropdown {
            self.choose_method(project)
        } else {
            Task::Idle
        }
    }

    fn key_backspace(&mut self, project: Option<&RataProject>) -> (t: Task)
        ensures
            final(self)@ == backspace_spec(old(self)@, project).0,
            t@ == backspace_spec(old(self)@, project).1,
    {
        if self.active_block == ActiveBlock::Request {
            remove_char_at(&mut self.draft.url, self.text_cursor);
            self.text_cursor = self.text_cursor.saturating_sub(1);
            self.handle_url_edited(project)
        } else if self.active_block == ActiveBlock::Params {
            if self.active_request_tab == RequestTab::Body {
                remove_char_at(&mut self.draft.body, self.text_cursor);
                self.text_cursor = self.text_cursor.saturating_sub(1);
            } else if self.param_edit_mode != ParamEditMode::Off {
                let len = if self.active_request_tab == RequestTab::Query { self.draft.params.len() } else { self.draft.headers.len() };
                if self.selected_request_row < len {
                    let required = if self.active_request_tab == RequestTab::Query {
                        self.draft.params[self.selected_request_row].required
                    } else {
                        self.draft.headers[self.selected_request_row].required
                    };
                    assert(required == table_rows(self@)[self.selected_request_row as int].required);
                    if self.param_edit_mode == ParamEditMode::Key && !required {
                        self.edit_selected_row(true, false, ' ');
                    } else if self.param_edit_mode == ParamEditMode::Value {
                        self.edit_selected_row(false, false, ' ');
                    }
                }
            }
            Task::Idle
        } else {
            Task::Idle
        }
    }

    fn key_char(&mut self, c: char, project: Option<&RataProject>) -> (t: Task)
        ensures
            final(self)@ == char_spec(old(self)@, c, project).0,
            t@ == char_spec(old(self)@, c, project).1,
    {
        let list = self.active_block == ActiveBlock::Collections || self.active_block == ActiveBlock::Examples
            || self.active_block == ActiveBlock::Response
            || (self.active_block == ActiveBlock::Params && self.param_edit_mode == ParamEditMode::Off
                && self.active_request_tab != RequestTab::Body);
        if c == 'k' && list {
            if self.active_block == ActiveBlock::Response {
                self.scroll_response_up(1);
            } else if self.active_block == ActiveBlock::Collections {
                return self.step_operation(project, false);
            } else if self.active_block == ActiveBlock::Params {
                self.selected_request_row = self.selected_request_row.saturating_sub(1);
            } else {
                self.selected_example_row = self.selected_example_row.saturating_sub(1);
            }
            return Task::Idle;
        }
        if c == 'j' && list {
            if self.active_block == ActiveBlock::Response {
                self.scroll_response_down(1);
            } else if self.active_block == ActiveBlock::Collections {
                return self.step_operation(project, true);
            } else if self.active_block == ActiveBlock::Params {
                let max = if self.active_request_tab == RequestTab::Query { self.draft.params.len() } else { self.draft.headers.len() };
                let next = self.selected_request_row.saturating_add(1);
                self.selected_request_row = if next <= max { next } else { max };
            } else {
                let max = self.model.examples.len().saturating_sub(1);
                let next = self.selected_example_row.saturating_add(1);
                self.selected_example_row = if next <= max { next } else { max };
            }
            return Task::Idle;
        }
        if c == ' ' && self.active_block == ActiveBlock::Params && self.active_request_tab != RequestTab::Body
            && self.param_edit_mode == ParamEditMode::Off {
            let len = if self.active_request_tab == RequestTab::Query { self.draft.params.len() } else { self.draft.headers.len() };
            if self.selected_request_row < len {
                let required = if self.active_request_tab == RequestTab::Query {
                    self.draft.params[self.selected_request_row].required
                } else {
                    self.draft.headers[self.selected_request_row].required
                };
                assert(required == table_rows(self@)[self.selected_request_row as int].required);
                if !required {
                    self.toggle_selected_row();
                }
            }
            return Task::Idle;
        }
        if c == 'e' && self.active_block == ActiveBlock::Nothing {
            self.active_block = ActiveBlock::Request;
            self.text_cursor = usize::MAX;
            return Task::Idle;
        }
        if self.active_block == ActiveBlock::Request {
            insert_char_at(&mut self.draft.url, self.text_cursor, c);
            self.text_cursor = self.text_cursor.saturating_add(1);
            return self.handle_url_edited(project);
        }
        if self.active_block == ActiveBlock::Params {
            if self.active_request_tab == RequestTab::Body {
                insert_char_at(&mut self.draft.body, self.text_cursor, c);
                self.text_cursor = self.text_cursor.saturating_add(1);
            } else if self.param_edit_mode != ParamEditMode::Off {
                let len = if self.active_request_tab == RequestTab::Query { self.draft.params.len() } else { self.draft.headers.len() };
                if self.selected_request_row < len {
                    let required = if self.active_request_tab == RequestTab::Query {
                        self.draft.params[self.selected_request_row].required
                    } else {
                        self.draft.headers[self.selected_request_row].required
                    };
                    assert(required == table_rows(self@)[self.selected_request_row as int].required);
                    if self.param_edit_mode == ParamEditMode::Key && !required {
                        self.edit_selected_row(true, true, c);
                    } else if self.param_edit_mode == ParamEditMode::Value {
                        self.edit_selected_row(false, true, c);
                    }
                }
            }
        }
        Task::Idle
    }

    fn key_esc(&mut self)
        ensures
            final(self)@ == esc_spec(old(self)@),
    {
        self.cancel_edit();
        self.param_edit_mode = ParamEditMode::Off;
        self.edit_backup = None;
        if self.examples_dropdown_open {
            self.examples_dropdown_open = false;
            self.active_block = ActiveBlock::Request;
        }
        if self.method_dropdown_open {
            self.method_dropdown_open = false;
            self.active_block = ActiveBlock::Request;
        }
    }

    fn key_tab(&mut self)
        ensures
            final(self)@ == tab_spec(old(self)@),
    {
        if self.active_block == ActiveBlock::Params && self.active_request_tab != RequestTab::Body
            && self.param_edit_mode != ParamEditMode::Off {
            let len = if self.active_request_tab == RequestTab::Query { self.draft.params.len() } else { self.draft.headers.len() };
            if self.selected_request_row < len {
                let required = if self.active_request_tab == RequestTab::Query {
                    self.draft.params[self.selected_request_row].required
                } else {
                    self.draft.headers[self.selected_request_row].required
                };
                assert(required == table_rows(self@)[self.selected_request_row as int].required);
                if self.param_edit_mode == ParamEditMode::Key {
                    self.param_edit_mode = ParamEditMode::Value;
                } else if !required {
                    self.param_edit_mode = ParamEditMode::Key;
                }
                self.text_cursor = usize::MAX;
            }
        }
    }

    fn key_move(&mut self, code: KeyCode)
        requires
            code == KeyCode::Left || code == KeyCode::Right || code == KeyCode::End || code == KeyCode::Home,
            match code {
                KeyCode::Left => cursor_fits(with_cursor(old(self)@, usize_sat_sub(usize_min(old(self).text_cursor, current_text_len(old(self)@) as usize), 1))),
                KeyCode::Right => cursor_fits(with_cursor(old(self)@, usize_sat_add(usize_min(old(self).text_cursor, current_text_len(old(self)@) as usize), 1))),
                KeyCode::End => cursor_fits(with_cursor(old(self)@, end_target(old(self)@))),
                _ => cursor_fits(with_cursor(old(self)@, home_target(old(self)@))),
            },
        ensures
            final(self)@ == plain_step(old(self)@, code, None).0,
    {
        proof {
            reveal(plain_step);
        }
        let c = match code {
            KeyCode::Left => {
                let len = self.current_text_len();
                let c = if self.text_cursor <= len { self.text_cursor } else { len };
                c.saturating_sub(1)
            },
            KeyCode::Right => {
                let len = self.current_text_len();
                let c = if self.text_cursor <= len { self.text_cursor } else { len };
                c.saturating_add(1)
            },
            KeyCode::End => {
                if self.active_block == ActiveBlock::Params && self.active_request_tab == RequestTab::Body {
                    move_cursor_to_line_end(self.draft.body.as_str(), self.text_cursor)
                } else {
                    self.current_text_len()
                }
            },
            _ => {
                if self.active_block == ActiveBlock::Params && self.active_request_tab == RequestTab::Body {
                    move_cursor_to_line_start(self.draft.body.as_str(), self.text_cursor)
                } else {
                    0
                }
            },
        };
        self.text_cursor = c;
        self.ensure_cursor_visible();
    }

    fn plain_key(&mut self, code: KeyCode, project: Option<&RataProject>) -> (t: Task)
        requires
            plain_fits(old(self)@, code),
        ensures
            final(self)@ == plain_step(old(self)@, code, project).0,
            t@ == plain_step(old(self)@, code, project).1,
    {
        proof {
            reveal(plain_step);
            reveal(plain_fits);
        }
        match code {
            KeyCode::Esc => {
                self.key_esc();
                Task::Idle
            },
            KeyCode::Tab => {
                self.key_tab();
                Task::Idle
            },
            KeyCode::Left | KeyCode::Right | KeyCode::End | KeyCode::Home => {
                self.key_move(code);
                Task::Idle
            },
            KeyCode::Up => self.key_up(project),
            KeyCode::Down => self.key_down(project),
            KeyCode::Enter => self.key_enter(project),
            KeyCode::Backspace => self.key_backspace(project),
            KeyCode::Char(c) => self.key_char(c, project),
            KeyCode::Other => Task::Idle,
        }
    }

    /// Handles a key (see `key_step`): gives whether to go on and the work asked of the
    /// program.
    pub fn handle_key(&mut self, key: KeyInput, project: Option<&RataProject>) -> (r: (AppAction, Task))
        requires
            key_fits(old(self)@, key),
        ensures
            final(self)@ == key_step(old(self)@, key, project).0,
            r.0 == key_step(old(self)@, key, project).1,
            r.1@ == key_step(old(self)@, key, project).2,
    {
        if self.error_popup.is_some() {
            if key.code == KeyCode::Enter || key.code == KeyCode::Esc {
                self.error_popup = None;
            }
            return (AppAction::Continue, Task::Idle);
        }
        if key.ctrl && key.code == KeyCode::Char('q') {
            return (AppAction::Quit, Task::Idle);
        }
        if key.ctrl && key.code == KeyCode::Char('e') {
            if self.active_block == ActiveBlock::Params && self.active_request_tab != RequestTab::Body {
                if self.param_edit_mode == ParamEditMode::Off {
                    self.begin_edit(ParamEditMode::Value);
                } else {
                    self.param_edit_mode = ParamEditMode::Off;
                    self.edit_backup = None;
                }
            }
            return (AppAction::Continue, Task::Idle);
        }
        if key.ctrl && key.code == KeyCode::Char('s') {
            let t = self.send();
            return (AppAction::Continue, t);
        }
        if key.ctrl && key.code == KeyCode::Char('w') {
            self.wrap_body = !self.wrap_body;
            return (AppAction::Continue, Task::Idle);
        }
        match key.code {
            KeyCode::Left | KeyCode::Right | KeyCode::Up | KeyCode::Down | KeyCode::Home | KeyCode::End => {
                self.text_selection = None;
                self.request_selection = None;
            },
            _ => {},
        }
        assert(self@ =~= unselected(old(self)@, key));
        let t = self.plain_key(key.code, project);
        (AppAction::Continue, t)
    }
}


// ---------------------------------------------------------------------------
// Laws
// ---------------------------------------------------------------------------

/// Control-Q quits and changes nothing, unless an error is shown.
pub proof fn law_ctrl_q_quits(s: AppValue, project: Option<&RataProject>)
    requires
        s.error_popup is None,
    ensures
        key_step(s, KeyInput { code: KeyCode::Char('q'), ctrl: true }, project) == (s, AppAction::Quit, TaskValue::Idle),
{
}

/// While an error is shown, a key never quits and asks for no work; Enter and Escape
/// close the error, and every other key leaves the state as it is.
pub proof fn law_error_window_holds_keys(s: AppValue, key: KeyInput, project: Option<&RataProject>)
    requires
        s.error_popup is Some,
    ensures
        key_step(s, key, project).1 == AppAction::Continue,
        key_step(s, key, project).2 == TaskValue::Idle,
        (key.code == KeyCode::Enter || key.code == KeyCode::Esc) ==> key_step(s, key, project).0 == (AppValue { error_popup: None, ..s }),
        !(key.code == KeyCode::Enter || key.code == KeyCode::Esc) ==> key_step(s, key, project).0 == s,
{
}

/// Escape closes both menus and stops editing a row, unless an error is shown.
pub proof fn law_escape_closes_menus(s: AppValue, project: Option<&RataProject>)
    requires
        s.error_popup is None,
    ensures
        !key_step(s, KeyInput { code: KeyCode::Esc, ctrl: false }, project).0.examples_dropdown_open,
        !key_step(s, KeyInput { code: KeyCode::Esc, ctrl: false }, project).0.method_dropdown_open,
        key_step(s, KeyInput { code: KeyCode::Esc, ctrl: false }, project).0.param_edit_mode == ParamEditMode::Off,
{
    reveal(plain_step);
}

proof fn lemma_cursor_roundtrip(t: Seq<char>, cursor: usize, ch: char)
    requires
        t.len() < usize::MAX,
    ensures
        removed(inserted(t, cursor, ch), usize_sat_add(cursor, 1)) == t,
{
    crate::editing::law_backspace_undoes_insert(t, cursor as int, ch);
    let k = min_nat(cursor as int, t.len() as int);
    let u = t.insert(k, ch);
    assert(min_nat(usize_sat_add(cursor, 1) as int, u.len() as int) == min_nat(k + 1, u.len() as int));
}

/// Typing a character into the URL and pressing Backspace gives back the URL.
pub proof fn law_backspace_undoes_typing_in_url(s: AppValue, c: char, project: Option<&RataProject>)
    requires
        s.error_popup is None,
        s.active_block == ActiveBlock::Request,
        s.draft.url.len() < usize::MAX,
    ensures
        ({
            let t = key_step(s, KeyInput { code: KeyCode::Char(c), ctrl: false }, project).0;
            key_step(t, KeyInput { code: KeyCode::Backspace, ctrl: false }, project).0.draft.url == s.draft.url
        }),
{
    reveal(plain_step);
    lemma_cursor_roundtrip(s.draft.url, s.text_cursor, c);
}

/// Typing a character into the body and pressing Backspace gives back the body.
pub proof fn law_backspace_undoes_typing_in_body(s: AppValue, c: char, project: Option<&RataProject>)
    requires
        s.error_popup is None,
        in_body(s),
        s.draft.body.len() < usize::MAX,
    ensures
        ({
            let t = key_step(s, KeyInput { code: KeyCode::Char(c), ctrl: false }, project).0;
            key_step(t, KeyInput { code: KeyCode::Backspace, ctrl: false }, project).0.draft.body == s.draft.body
        }),
{
    reveal(plain_step);
    lemma_cursor_roundtrip(s.draft.body, s.text_cursor, c);
}

/// Space on a row of a table flips whether the row is sent, so pressing it twice gives
/// back the state it started from (a required row is not flipped at all).
pub proof fn law_space_twice_restores(s: AppValue, project: Option<&RataProject>)
    requires
        s.error_popup is None,
        in_table(s),
        s.param_edit_mode == ParamEditMode::Off,
    ensures
        ({
            let space = KeyInput { code: KeyCode::Char(' '), ctrl: false };
            key_step(key_step(s, space, project).0, space, project).0 == s
        }),
{
    reveal(plain_step);
    let rows = table_rows(s);
    let i = s.selected_request_row as int;
    if 0 <= i < rows.len() && !rows[i].required {
        let t = with_table(s, rows.update(i, toggled(rows[i])));
        assert(table_rows(t) == rows.update(i, toggled(rows[i])));
        assert(rows.update(i, toggled(rows[i])).update(i, toggled(toggled(rows[i]))) =~= rows);
        assert(toggled(toggled(rows[i])) == rows[i]);
        if s.active_request_tab == RequestTab::Query {
            assert(s.draft.params == rows);
        } else {
            assert(s.draft.headers == rows);
        }
        assert(with_table(t, rows) == s);
    }
}

/// Escape cancels an edit: starting to edit a row's value with Enter, typing a
/// character and pressing Escape gives back the rows as they were, with editing off.
pub proof fn law_escape_cancels_edit(s: AppValue, c: char, project: Option<&RataProject>)
    requires
        s.error_popup is None,
        in_table(s),
        s.param_edit_mode == ParamEditMode::Off,
        s.selected_request_row < table_rows(s).len(),
    ensures
        ({
            let enter = KeyInput { code: KeyCode::Enter, ctrl: false };
            let typed = KeyInput { code: KeyCode::Char(c), ctrl: false };
            let esc = KeyInput { code: KeyCode::Esc, ctrl: false };
            let t1 = key_step(s, enter, project).0;
            let t2 = key_step(t1, typed, project).0;
            let t3 = key_step(t2, esc, project).0;
            table_rows(t3) == table_rows(s) && t3.param_edit_mode == ParamEditMode::Off
        }),
{
    reveal(plain_step);
    let rows = table_rows(s);
    let i = s.selected_request_row as int;
    let enter = KeyInput { code: KeyCode::Enter, ctrl: false };
    let typed = KeyInput { code: KeyCode::Char(c), ctrl: false };
    let t1 = key_step(s, enter, project).0;
    assert(t1 == begin_edit(s, ParamEditMode::Value));
    assert(table_rows(t1) == rows);
    let t2 = key_step(t1, typed, project).0;
    assert(t2.edit_backup == Some((rows[i].key, rows[i].value)));
    assert(table_rows(t2).len() == rows.len());
    assert(table_rows(t2)[i].enabled == rows[i].enabled && table_rows(t2)[i].required == rows[i].required);
    assert(forall|j: int| 0 <= j < rows.len() && j != i ==> table_rows(t2)[j] == rows[j]);
    let u = edit_cancelled(t2);
    assert(table_rows(u) =~= rows);
}

} // verus!
