//! Tests that a key or a mouse event can be handled within the machine's integers, for
//! callers that cannot see the contracts.
use vstd::prelude::*;
use crate::layout::count_display_lines;
use crate::editing::{insert_char_at, move_cursor_to_line_end, move_cursor_to_line_start, move_cursor_up, move_cursor_down,
    line_end_target, line_start_target, cursor_up_target, cursor_down_target};
use crate::tabs::{cursor_fits, cursor_line, current_text_len, sat_sub16, request_scrolled_down};
use crate::keys::{key_fits, plain_fits, unselected, with_cursor, in_body, inserted, usize_sat_add, usize_sat_sub, usize_min,
    end_target, home_target, ctrl_char};
use crate::mouse::{mouse_fits, screen_fits, rect_fits, edge_scrolled, request_drag_moved, drag_line, index_at};
use crate::tui::{TuiApp, AppValue, DraftValue, KeyInput, KeyCode, MouseInput, MouseKind, Rect, RequestTab, ActiveBlock, DragTarget};

verus! {

fn rect_fits_exec(r: Rect) -> (b: bool)
    ensures
        b == rect_fits(r),
{
    (r.x as u32 + r.width as u32) <= 65535 && (r.y as u32 + r.height as u32) <= 65535
        && (r.x as u32 + 1) <= 65535 && (r.y as u32 + 2) <= 65535
}

proof fn lemma_plain_fits_unselected(s: AppValue, key: KeyInput)
    ensures
        plain_fits(unselected(s, key), key.code) == plain_fits(s, key.code),
{
    reveal(plain_fits);
    let t = unselected(s, key);
    assert(current_text_len(t) == current_text_len(s));
    assert(end_target(t) == end_target(s));
    assert(home_target(t) == home_target(s));
    assert(forall|c: usize| #[trigger] cursor_fits(with_cursor(t, c)) == cursor_fits(with_cursor(s, c)));
}

impl TuiApp {
    /// Whether keeping the cursor in view fits in 16-bit arithmetic for a body, a cursor
    /// and a scroll offset in place of the current ones.
    fn cursor_fits_with(&self, body: &str, cursor: usize, scroll: u16) -> (r: bool)
        ensures
            r == cursor_fits(AppValue {
                draft: DraftValue { body: body@, ..self@.draft },
                text_cursor: cursor,
                request_scroll: scroll,
                ..self@
            }),
    {
        if self.active_request_tab != RequestTab::Body {
            return true;
        }
        let view = self.params_area.height.saturating_sub(2);
        if view == 0 {
            return true;
        }
        let width = self.params_area.width.saturating_sub(2) as usize;
        let v = crate::text::chars_of(body);
        let n = if cursor < v.len() { cursor } else { v.len() };
        let before = crate::text::string_of(&v.as_slice()[0..n]);
        assert(before@ == body@.take(n as int));
        let rows = count_display_lines(before.as_str(), self.wrap_body, width);
        let line = rows.saturating_sub(1);
        if line >= scroll {
            scroll as u32 + view as u32 <= 65535
        } else {
            true
        }
    }

    fn fits_after_move(&self, c: usize) -> (r: bool)
        ensures
            r == cursor_fits(with_cursor(self@, c)),
    {
        let r = self.cursor_fits_with(self.draft.body.as_str(), c, self.request_scroll);
        assert(with_cursor(self@, c) =~= AppValue { draft: DraftValue { body: self@.draft.body, ..self@.draft },
            text_cursor: c, request_scroll: self.request_scroll, ..self@ });
        r
    }

    fn fits_after_newline(&self) -> (r: bool)
        requires
            self.text_cursor < usize::MAX,
        ensures
            r == cursor_fits(AppValue {
                draft: DraftValue { body: inserted(self@.draft.body, self.text_cursor, '\n'), ..self@.draft },
                text_cursor: (self.text_cursor + 1) as usize,
                ..self@
            }),
    {
        let mut b = self.draft.body.clone();
        insert_char_at(&mut b, self.text_cursor, '\n');
        self.cursor_fits_with(b.as_str(), self.text_cursor + 1, self.request_scroll)
    }

    fn plain_fits_check(&self, code: KeyCode) -> (r: bool)
        ensures
            r == plain_fits(self@, code),
    {
        proof {
            reveal(plain_fits);
        }
        let body = self.draft.body.as_str();
        let in_b = self.active_block == ActiveBlock::Params && self.active_request_tab == RequestTab::Body;
        match code {
            KeyCode::Left => {
                let len = self.current_text_len();
                let c = if self.text_cursor <= len { self.text_cursor } else { len };
                self.fits_after_move(c.saturating_sub(1))
            },
            KeyCode::Right => {
                let len = self.current_text_len();
                let c = if self.text_cursor <= len { self.text_cursor } else { len };
                self.fits_after_move(c.saturating_add(1))
            },
            KeyCode::End => {
                let c = if in_b { move_cursor_to_line_end(body, self.text_cursor) } else { self.current_text_len() };
                self.fits_after_move(c)
            },
            KeyCode::Home => {
                let c = if in_b { move_cursor_to_line_start(body, self.text_cursor) } else { 0 };
                self.fits_after_move(c)
            },
            KeyCode::Up => {
                if in_b { self.fits_after_move(move_cursor_up(body, self.text_cursor)) } else { true }
            },
            KeyCode::Down => {
                if in_b { self.fits_after_move(move_cursor_down(body, self.text_cursor)) } else { true }
            },
            KeyCode::Enter => {
                if in_b {
                    if self.text_cursor == usize::MAX { false } else { self.fits_after_newline() }
                } else {
                    true
                }
            },
            _ => true,
        }
    }

    /// Whether a key can be handled (see `key_fits`).
    pub fn key_fits_check(&self, key: KeyInput) -> (r: bool)
        ensures
            r == key_fits(self@, key),
    {
        if self.error_popup.is_some() {
            return true;
        }
        if key.ctrl && (key.code == KeyCode::Char('q') || key.code == KeyCode::Char('e') || key.code == KeyCode::Char('s')
            || key.code == KeyCode::Char('w')) {
            return true;
        }
        proof {
            lemma_plain_fits_unselected(self@, key);
        }
        self.plain_fits_check(key.code)
    }

    /// The body scroll offset after scrolling down by `amount` (see `request_scrolled_down`).
    fn request_scroll_down_value(&self, amount: u16) -> (r: u16)
        ensures
            r == request_scrolled_down(self@, amount),
    {
        if self.active_request_tab == RequestTab::Body {
            let width = self.params_area.width.saturating_sub(2) as usize;
            let lines = count_display_lines(self.draft.body.as_str(), self.wrap_body, width);
            let view_height = self.params_area.height.saturating_sub(2);
            let max_scroll = lines.saturating_sub(view_height);
            let wanted = self.request_scroll.saturating_add(amount);
            if wanted <= max_scroll { wanted } else { max_scroll }
        } else {
            self.request_scroll
        }
    }

    /// Whether a mouse event can be handled (see `mouse_fits`).
    pub fn mouse_fits_check(&self, m: MouseInput) -> (r: bool)
        ensures
            r == mouse_fits(self@, m),
    {
        let screen = rect_fits_exec(self.collections_area) && rect_fits_exec(self.request_area)
            && (self.request_area.x as u32 + 12) <= 65535
            && rect_fits_exec(self.params_area) && rect_fits_exec(self.examples_area) && rect_fits_exec(self.response_area)
            && rect_fits_exec(self.method_dropdown_area) && rect_fits_exec(self.send_button_area)
            && rect_fits_exec(self.error_popup_area) && m.column < 65535 && m.row < 65535;
        assert(screen == screen_fits(self@, m));
        if !screen {
            return false;
        }
        if !(self.error_popup.is_none() && m.kind == MouseKind::LeftDrag && self.drag_target == DragTarget::RequestSelection
            && self.request_selection.is_some()) {
            return true;
        }
        let a = self.params_area;
        let top = a.y + 1;
        let bottom = a.y + a.height.saturating_sub(1);
        let scroll = if m.row < top {
            self.request_scroll.saturating_sub(top - m.row)
        } else if m.row >= bottom {
            self.request_scroll_down_value(m.row - bottom + 1)
        } else {
            self.request_scroll
        };
        assert(scroll == edge_scrolled(self@, m.row, true).request_scroll);
        let line: usize = if m.row < top { scroll as usize } else { (m.row - top) as usize + scroll as usize };
        let col = m.column.saturating_sub(a.x + 1) as usize;
        let width = a.width.saturating_sub(2) as usize;
        let idx = crate::layout::visual_to_char_index(self.draft.body.as_str(), line, col, width, self.wrap_body);
        let r = self.cursor_fits_with(self.draft.body.as_str(), idx, scroll);
        assert(request_drag_moved(self@, m).text_cursor == idx);
        assert(request_drag_moved(self@, m).request_scroll == scroll);
        r
    }
}

} // verus!
