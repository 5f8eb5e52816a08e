//! The tab bars of the request and response panels, the text each response tab shows,
//! and scrolling.
use vstd::prelude::*;
use crate::numfmt::{decimal, decimal_spec, lemma_decimal_len};
use crate::text::{char_count, lines_spec, first_index, lemma_first_index_at, strip_cr};
use crate::json::{pretty_body, pretty_body_spec};
use crate::panels::{format_pairs, format_pairs_spec, join_with_newlines, join_lines, Selection, selection_text, extract_text_selection};
use crate::layout::{count_display_lines, visual_lines_spec};
use crate::tui::{TuiApp, AppValue, ResponseValue, ParamValue, ParamState, params_view, strings_view, RequestTab, ResponseTab, ActiveBlock, ParamEditMode};

verus! {

/// `prefix`, the decimal text of `n`, then `suffix`.
pub open spec fn counted(prefix: Seq<char>, n: nat, suffix: Seq<char>) -> Seq<char> {
    prefix + decimal_spec(n) + suffix
}

fn counted_text(prefix: &str, n: usize, suffix: &str) -> (r: String)
    ensures
        r@ == counted(prefix@, n as nat, suffix@),
{
    let mut s = String::from_str(prefix);
    let d = decimal(n);
    s.append(d.as_str());
    s.append(suffix);
    s
}

/// The labels of the response tabs: `Body`, `Headers (n)` and `Cookies (n)`.
pub open spec fn response_tabs_spec(r: ResponseValue) -> Seq<Seq<char>> {
    seq![
        seq!['B', 'o', 'd', 'y'],
        counted(seq!['H', 'e', 'a', 'd', 'e', 'r', 's', ' ', '('], r.headers.len(), seq![')']),
        counted(seq!['C', 'o', 'o', 'k', 'i', 'e', 's', ' ', '('], r.cookies.len(), seq![')']),
    ]
}

/// The number of enabled rows.
pub open spec fn enabled_count(ps: Seq<ParamValue>) -> nat
    decreases ps.len(),
{
    if ps.len() == 0 {
        0
    } else {
        enabled_count(ps.drop_last()) + if ps.last().enabled { 1nat } else { 0nat }
    }
}

pub proof fn lemma_enabled_count_le(ps: Seq<ParamValue>)
    ensures
        enabled_count(ps) <= ps.len(),
    decreases ps.len(),
{
    if ps.len() > 0 {
        lemma_enabled_count_le(ps.drop_last());
    }
}

/// The labels of the request tabs: ` Params (n) `, ` Body ` and ` Headers (n) `, counting
/// the enabled rows.
pub open spec fn request_tabs_spec(s: AppValue) -> Seq<Seq<char>> {
    seq![
        counted(seq![' ', 'P', 'a', 'r', 'a', 'm', 's', ' ', '('], enabled_count(s.draft.params), seq![')', ' ']),
        seq![' ', 'B', 'o', 'd', 'y', ' '],
        counted(seq![' ', 'H', 'e', 'a', 'd', 'e', 'r', 's', ' ', '('], enabled_count(s.draft.headers), seq![')', ' ']),
    ]
}

/// The columns (relative to the tab bar) that each response tab covers: the first starts
/// at column 1, and three columns separate two tabs.
pub open spec fn response_bounds_spec(r: ResponseValue) -> Seq<(int, int)> {
    let l = response_tabs_spec(r);
    let s1: int = l[0].len() as int + 4;
    let s2: int = s1 + l[1].len() + 3;
    seq![(1, l[0].len() as int), (s1, s1 + l[1].len() - 1), (s2, s2 + l[2].len() - 1)]
}

/// The columns (relative to the tab bar) that each request tab covers: the first starts
/// at column 0, and one column separates two tabs.
pub open spec fn request_bounds_spec(s: AppValue) -> Seq<(int, int)> {
    let l = request_tabs_spec(s);
    let s1: int = l[0].len() as int + 1;
    let s2: int = s1 + l[1].len() + 1;
    seq![(0int, l[0].len() - 1), (s1, s1 + l[1].len() - 1), (s2, s2 + l[2].len() - 1)]
}

/// The response tab at a cell, if any: the row of the tab bar, within a tab's columns.
pub open spec fn response_tab_at_spec(s: AppValue, column: u16, row: u16, origin: (u16, u16)) -> Option<ResponseTab> {
    if row != origin.1 || column < origin.0 {
        None
    } else {
        let off = column - origin.0;
        let b = response_bounds_spec(s.response);
        if b[0].0 <= off <= b[0].1 {
            Some(ResponseTab::Body)
        } else if b[1].0 <= off <= b[1].1 {
            Some(ResponseTab::Headers)
        } else if b[2].0 <= off <= b[2].1 {
            Some(ResponseTab::Cookies)
        } else {
            None
        }
    }
}

/// The request tab at a cell, if any: the top row of the request panel, from the column
/// after its left border, within a tab's columns.
pub open spec fn request_tab_at_spec(s: AppValue, column: u16, row: u16) -> Option<RequestTab> {
    if row != s.params_area.y || column < s.params_area.x + 1 {
        None
    } else {
        let off = column - (s.params_area.x + 1);
        let b = request_bounds_spec(s);
        if b[0].0 <= off <= b[0].1 {
            Some(RequestTab::Query)
        } else if b[1].0 <= off <= b[1].1 {
            Some(RequestTab::Body)
        } else if b[2].0 <= off <= b[2].1 {
            Some(RequestTab::Headers)
        } else {
            None
        }
    }
}

/// What the active response tab shows: the error if the request failed; else the
/// body (pretty-printed when it is JSON), the headers one per line, or the cookies one
/// per line, with a placeholder text when there are none.
pub open spec fn response_text_spec(s: AppValue) -> Seq<char> {
    match s.response.error {
        Some(e) => e,
        None => match s.active_response_tab {
            ResponseTab::Body => pretty_body_spec(s.response.body),
            ResponseTab::Headers => format_pairs_spec(s.response.headers, seq!['N', 'o', ' ', 'h', 'e', 'a', 'd', 'e', 'r', 's']),
            ResponseTab::Cookies => if s.response.cookies.len() == 0 {
                seq!['N', 'o', ' ', 'c', 'o', 'o', 'k', 'i', 'e', 's']
            } else {
                join_lines(s.response.cookies)
            },
        },
    }
}

pub open spec fn sat_sub16(a: int, b: int) -> u16 {
    if a - b < 0 { 0 } else { (a - b) as u16 }
}

pub open spec fn sat_add16(a: int, b: int) -> u16 {
    if a + b > u16::MAX { u16::MAX } else { (a + b) as u16 }
}

pub open spec fn min16(a: u16, b: u16) -> u16 {
    if a <= b { a } else { b }
}

/// The number of rows the response text takes, as a 16-bit count: the lines of the
/// error; else for the body its rows laid out in the panel, for headers and cookies
/// their number (at least one).
pub open spec fn response_rows(s: AppValue) -> u16 {
    match s.response.error {
        Some(e) => (lines_spec(e).len() as int % 65536) as u16,
        None => match s.active_response_tab {
            ResponseTab::Body => (visual_lines_spec(pretty_body_spec(s.response.body),
                sat_sub16(s.response_area.width as int, 2) as nat, s.wrap_body) % 65536) as u16,
            ResponseTab::Headers => ((if s.response.headers.len() > 1 { s.response.headers.len() as int } else { 1 }) % 65536) as u16,
            ResponseTab::Cookies => ((if s.response.cookies.len() > 1 { s.response.cookies.len() as int } else { 1 }) % 65536) as u16,
        },
    }
}

/// The response scroll offset after scrolling down by `amount`: never past the offset at
/// which the last row is at the bottom of the panel.
pub open spec fn response_scrolled_down(s: AppValue, amount: u16) -> u16 {
    min16(sat_add16(s.response_scroll as int, amount as int),
        sat_sub16(response_rows(s) as int, sat_sub16(s.response_area.height as int, 2) as int))
}

/// The request scroll offset after scrolling down by `amount` (only the body tab scrolls).
pub open spec fn request_scrolled_down(s: AppValue, amount: u16) -> u16 {
    if s.active_request_tab == RequestTab::Body {
        let rows = (visual_lines_spec(s.draft.body, sat_sub16(s.params_area.width as int, 2) as nat, s.wrap_body) % 65536) as u16;
        min16(sat_add16(s.request_scroll as int, amount as int), sat_sub16(rows as int, sat_sub16(s.params_area.height as int, 2) as int))
    } else {
        s.request_scroll
    }
}

/// The row (counted from 0) of the body on which the cursor stands, as a 16-bit count.
pub open spec fn cursor_line(s: AppValue) -> u16 {
    let before = s.draft.body.take(if s.text_cursor < s.draft.body.len() { s.text_cursor as int } else { s.draft.body.len() as int });
    let rows = (visual_lines_spec(before, sat_sub16(s.params_area.width as int, 2) as nat, s.wrap_body) % 65536) as u16;
    sat_sub16(rows as int, 1)
}

/// Whether keeping the cursor in view stays within 16-bit arithmetic: the bottom of the
/// visible rows is compared only when the cursor is not above them.
pub open spec fn cursor_fits(s: AppValue) -> bool {
    let view = sat_sub16(s.params_area.height as int, 2);
    s.active_request_tab == RequestTab::Body && view != 0 && cursor_line(s) >= s.request_scroll
        ==> s.request_scroll + view <= u16::MAX
}

/// The request scroll offset that keeps the body cursor in view: unchanged outside the
/// body tab or when the panel has no room; else the smallest change that brings the
/// cursor's row between the top and the bottom of the panel.
pub open spec fn cursor_scroll(s: AppValue) -> u16 {
    if s.active_request_tab != RequestTab::Body {
        s.request_scroll
    } else {
        let line = cursor_line(s);
        let view = sat_sub16(s.params_area.height as int, 2);
        if view == 0 {
            s.request_scroll
        } else if line < s.request_scroll {
            line
        } else if line >= s.request_scroll + view {
            sat_add16(sat_sub16(line as int, view as int) as int, 1)
        } else {
            s.request_scroll
        }
    }
}

/// The row being edited in the request panel's table: a query parameter or a header.
pub open spec fn table_rows(s: AppValue) -> Seq<ParamValue> {
    if s.active_request_tab == RequestTab::Query { s.draft.params } else { s.draft.headers }
}

/// The length of the text the cursor moves in: the URL, the body, or the key or value of
/// the selected row being edited; 0 elsewhere.
pub open spec fn current_text_len(s: AppValue) -> nat {
    if s.active_block == ActiveBlock::Request {
        s.draft.url.len()
    } else if s.active_block == ActiveBlock::Params {
        if s.active_request_tab == RequestTab::Body {
            s.draft.body.len()
        } else if s.param_edit_mode != ParamEditMode::Off && s.selected_request_row < table_rows(s).len() {
            let p = table_rows(s)[s.selected_request_row as int];
            if s.param_edit_mode == ParamEditMode::Key { p.key.len() } else { p.value.len() }
        } else {
            0
        }
    } else {
        0
    }
}

fn three(a: String, b: String, c: String) -> (r: Vec<String>)
    ensures
        strings_view(r@) == seq![a@, b@, c@],
        r@.len() == 3,
        r@[0]@ == a@,
        r@[1]@ == b@,
        r@[2]@ == c@,
{
    let mut v: Vec<String> = Vec::new();
    v.push(a);
    v.push(b);
    v.push(c);
    assert(strings_view(v@) =~= seq![v@[0]@, v@[1]@, v@[2]@]);
    v
}

fn enabled_rows(v: &Vec<ParamState>) -> (r: usize)
    ensures
        r == enabled_count(params_view(v@)),
{
    let mut n: usize = 0;
    let mut i: usize = 0;
    while i < v.len()
        invariant
            i <= v.len(),
            n == enabled_count(params_view(v@).take(i as int)),
            n <= i,
        decreases v.len() - i,
    {
        assert(params_view(v@).take(i + 1).drop_last() =~= params_view(v@).take(i as int));
        if v[i].enabled {
            n += 1;
        }
        i += 1;
    }
    assert(params_view(v@).take(v.len() as int) =~= params_view(v@));
    n
}

fn text_u16_len(s: &String) -> (r: u16)
    requires
        s@.len() <= 100,
    ensures
        r == s@.len(),
{
    let n = char_count(s.as_str());
    n as u16
}

impl TuiApp {
    /// The labels of the response tabs (see `response_tabs_spec`).
    pub fn response_tabs(&self) -> (r: Vec<String>)
        ensures
            strings_view(r@) == response_tabs_spec(self.response@),
    {
        proof {
            reveal_strlit("Body");
            reveal_strlit("Headers (");
            reveal_strlit("Cookies (");
            reveal_strlit(")");
            assert("Body"@ =~= seq!['B', 'o', 'd', 'y']);
            assert("Headers ("@ =~= seq!['H', 'e', 'a', 'd', 'e', 'r', 's', ' ', '(']);
            assert("Cookies ("@ =~= seq!['C', 'o', 'o', 'k', 'i', 'e', 's', ' ', '(']);
            assert(")"@ =~= seq![')']);
        }
        let r = three(
            String::from_str("Body"),
            counted_text("Headers (", self.response.headers.len(), ")"),
            counted_text("Cookies (", self.response.cookies.len(), ")"),
        );
        assert(strings_view(r@) =~= response_tabs_spec(self.response@));
        r
    }

    /// The labels of the request tabs (see `request_tabs_spec`).
    pub fn request_tabs(&self) -> (r: Vec<String>)
        ensures
            strings_view(r@) == request_tabs_spec(self@),
    {
        proof {
            reveal_strlit(" Params (");
            reveal_strlit(" Body ");
            reveal_strlit(" Headers (");
            reveal_strlit(") ");
            assert(" Params ("@ =~= seq![' ', 'P', 'a', 'r', 'a', 'm', 's', ' ', '(']);
            assert(" Body "@ =~= seq![' ', 'B', 'o', 'd', 'y', ' ']);
            assert(" Headers ("@ =~= seq![' ', 'H', 'e', 'a', 'd', 'e', 'r', 's', ' ', '(']);
            assert(") "@ =~= seq![')', ' ']);
        }
        let r = three(
            counted_text(" Params (", enabled_rows(&self.draft.params), ") "),
            String::from_str(" Body "),
            counted_text(" Headers (", enabled_rows(&self.draft.headers), ") "),
        );
        assert(strings_view(r@) =~= request_tabs_spec(self@));
        r
    }

    /// The columns each response tab covers (see `response_bounds_spec`).
    pub fn response_tab_bounds(&self) -> (r: Vec<(u16, u16)>)
        ensures
            r@.len() == 3,
            forall|i: int| 0 <= i < 3 ==> r@[i].0 == response_bounds_spec(self.response@)[i].0
                && r@[i].1 == response_bounds_spec(self.response@)[i].1,
    {
        let tabs = self.response_tabs();
        proof {
            lemma_decimal_len(self.response.headers.len() as nat);
            lemma_decimal_len(self.response.cookies.len() as nat);
            assert(strings_view(tabs@).len() == 3);
            assert(strings_view(tabs@)[0] == tabs@[0]@);
            assert(strings_view(tabs@)[1] == tabs@[1]@);
            assert(strings_view(tabs@)[2] == tabs@[2]@);
            assert(tabs@[0]@ == response_tabs_spec(self.response@)[0]);
            assert(tabs@[1]@ == response_tabs_spec(self.response@)[1]);
            assert(tabs@[2]@ == response_tabs_spec(self.response@)[2]);
        }
        let l0 = text_u16_len(&tabs[0]);
        let l1 = text_u16_len(&tabs[1]);
        let l2 = text_u16_len(&tabs[2]);
        let s1 = l0 + 4;
        let s2 = s1 + l1 + 3;
        vec![(1, l0), (s1, s1 + l1 - 1), (s2, s2 + l2 - 1)]
    }

    /// The response tab at a cell, given where the tab bar starts (see `response_tab_at_spec`).
    pub fn response_tab_at(&self, column: u16, row: u16, origin: (u16, u16)) -> (r: Option<ResponseTab>)
        ensures
            r == response_tab_at_spec(self@, column, row, origin),
    {
        if row != origin.1 || column < origin.0 {
            return None;
        }
        let off = column - origin.0;
        let b = self.response_tab_bounds();
        if off >= b[0].0 && off <= b[0].1 {
            Some(ResponseTab::Body)
        } else if off >= b[1].0 && off <= b[1].1 {
            Some(ResponseTab::Headers)
        } else if off >= b[2].0 && off <= b[2].1 {
            Some(ResponseTab::Cookies)
        } else {
            None
        }
    }

    /// The request tab at a cell (see `request_tab_at_spec`).
    pub fn request_tab_at(&self, column: u16, row: u16) -> (r: Option<RequestTab>)
        ensures
            r == request_tab_at_spec(self@, column, row),
    {
        if row != self.params_area.y || (column as u32) < self.params_area.x as u32 + 1 {
            return None;
        }
        let off = column - self.params_area.x - 1;
        let tabs = self.request_tabs();
        proof {
            assert(self@.draft.params.len() == self.draft.params@.len());
            assert(self@.draft.headers.len() == self.draft.headers@.len());
            assert(self.draft.params@.len() == self.draft.params.len());
            assert(self.draft.headers@.len() == self.draft.headers.len());
            lemma_enabled_count_le(self@.draft.params);
            lemma_enabled_count_le(self@.draft.headers);
            lemma_decimal_len(enabled_count(self@.draft.params));
            lemma_decimal_len(enabled_count(self@.draft.headers));
            assert(strings_view(tabs@).len() == 3);
            assert(strings_view(tabs@)[0] == tabs@[0]@);
            assert(strings_view(tabs@)[1] == tabs@[1]@);
            assert(strings_view(tabs@)[2] == tabs@[2]@);
            assert(tabs@[0]@ == request_tabs_spec(self@)[0]);
            assert(tabs@[1]@ == request_tabs_spec(self@)[1]);
            assert(tabs@[2]@ == request_tabs_spec(self@)[2]);
        }
        let l0 = text_u16_len(&tabs[0]);
        let l1 = text_u16_len(&tabs[1]);
        let l2 = text_u16_len(&tabs[2]);
        let s1 = l0 + 1;
        let s2 = s1 + l1 + 1;
        if off <= l0 - 1 {
            Some(RequestTab::Query)
        } else if off >= s1 && off <= s1 + l1 - 1 {
            Some(RequestTab::Body)
        } else if off >= s2 && off <= s2 + l2 - 1 {
            Some(RequestTab::Headers)
        } else {
            None
        }
    }

    /// What the active response tab shows (see `response_text_spec`).
    pub fn active_response_string(&self) -> (r: String)
        ensures
            r@ == response_text_spec(self@),
    {
        match &self.response.error {
            Some(e) => return e.clone(),
            None => {},
        }
        match self.active_response_tab {
            ResponseTab::Body => pretty_body(self.response.body.as_str()),
            ResponseTab::Headers => {
                proof {
                    reveal_strlit("No headers");
                }
                format_pairs(self.response.headers.as_slice(), "No headers")
            },
            ResponseTab::Cookies => {
                proof {
                    reveal_strlit("No cookies");
                }
                if self.response.cookies.len() == 0 {
                    String::from_str("No cookies")
                } else {
                    join_with_newlines(self.response.cookies.as_slice())
                }
            },
        }
    }

    /// The selected text of the active response tab.
    pub fn extract_selection(&self, sel: Selection) -> (r: String)
        ensures
            r@ == selection_text(response_text_spec(self@), sel),
    {
        let t = self.active_response_string();
        extract_text_selection(t.as_str(), sel)
    }

    /// The selected text of the request body.
    pub fn extract_request_selection(&self, sel: Selection) -> (r: String)
        ensures
            r@ == selection_text(self@.draft.body, sel),
    {
        extract_text_selection(self.draft.body.as_str(), sel)
    }

    /// The length of the text the cursor moves in (see `current_text_len`).
    pub fn current_text_len(&self) -> (r: usize)
        ensures
            r == current_text_len(self@),
    {
        if self.active_block == ActiveBlock::Request {
            char_count(self.draft.url.as_str())
        } else if self.active_block == ActiveBlock::Params {
            if self.active_request_tab == RequestTab::Body {
                char_count(self.draft.body.as_str())
            } else if self.param_edit_mode != ParamEditMode::Off {
                let rows = if self.active_request_tab == RequestTab::Query { &self.draft.params } else { &self.draft.headers };
                if self.selected_request_row < rows.len() {
                    let p = &rows[self.selected_request_row];
                    assert(table_rows(self@)[self.selected_request_row as int] == p@);
                    if self.param_edit_mode == ParamEditMode::Key {
                        char_count(p.key.as_str())
                    } else {
                        char_count(p.value.as_str())
                    }
                } else {
                    0
                }
            } else {
                0
            }
        } else {
            0
        }
    }

    /// Scrolls the response up by `amount` rows, stopping at the top.
    pub fn scroll_response_up(&mut self, amount: u16)
        ensures
            final(self)@ == (AppValue { response_scroll: sat_sub16(old(self).response_scroll as int, amount as int), ..old(self)@ }),
    {
        self.response_scroll = self.response_scroll.saturating_sub(amount);
    }

    /// Scrolls the response down by `amount` rows (see `response_scrolled_down`).
    pub fn scroll_response_down(&mut self, amount: u16)
        ensures
            final(self)@ == (AppValue { response_scroll: response_scrolled_down(old(self)@, amount), ..old(self)@ }),
    {
        let lines: u16 = match &self.response.error {
            Some(e) => {
                let v = crate::text::chars_of(e.as_str());
                let ls = crate::text::split_lines(v.as_slice());
                let n = ls.len();
                assert(n as u16 == n % 65536) by (bit_vector);
                n as u16
            },
            None => match self.active_response_tab {
                ResponseTab::Body => {
                    let width = self.response_area.width.saturating_sub(2) as usize;
                    let text = pretty_body(self.response.body.as_str());
                    count_display_lines(text.as_str(), self.wrap_body, width)
                },
                ResponseTab::Headers => {
                    let n = if self.response.headers.len() > 1 { self.response.headers.len() } else { 1 };
                    assert(n as u16 == n % 65536) by (bit_vector);
                    n as u16
                },
                ResponseTab::Cookies => {
                    let n = if self.response.cookies.len() > 1 { self.response.cookies.len() } else { 1 };
                    assert(n as u16 == n % 65536) by (bit_vector);
                    n as u16
                },
            },
        };
        assert(lines == response_rows(self@));
        let view_height = self.response_area.height.saturating_sub(2);
        let max_scroll = lines.saturating_sub(view_height);
        let wanted = self.response_scroll.saturating_add(amount);
        self.response_scroll = if wanted <= max_scroll { wanted } else { max_scroll };
    }

    /// Scrolls the request body up by `amount` rows, stopping at the top.
    pub fn scroll_request_up(&mut self, amount: u16)
        ensures
            final(self)@ == (AppValue { request_scroll: sat_sub16(old(self).request_scroll as int, amount as int), ..old(self)@ }),
    {
        self.request_scroll = self.request_scroll.saturating_sub(amount);
    }

    /// Scrolls the request body down by `amount` rows (see `request_scrolled_down`).
    pub fn scroll_request_down(&mut self, amount: u16)
        ensures
            final(self)@ == (AppValue { request_scroll: request_scrolled_down(old(self)@, amount), ..old(self)@ }),
    {
        if self.active_request_tab == RequestTab::Body {
            let width = self.params_area.width.saturating_sub(2) as usize;
            let lines = count_display_lines(self.draft.body.as_str(), self.wrap_body, width);
            let view_height = self.params_area.height.saturating_sub(2);
            let max_scroll = lines.saturating_sub(view_height);
            let wanted = self.request_scroll.saturating_add(amount);
            self.request_scroll = if wanted <= max_scroll { wanted } else { max_scroll };
        }
    }

    /// Scrolls the request body so that the cursor is in view (see `cursor_scroll`).
    pub fn ensure_cursor_visible(&mut self)
        requires
            cursor_fits(old(self)@),
        ensures
            final(self)@ == (AppValue { request_scroll: cursor_scroll(old(self)@), ..old(self)@ }),
    {
        if self.active_request_tab != RequestTab::Body {
            return;
        }
        let width = self.params_area.width.saturating_sub(2) as usize;
        let v = crate::text::chars_of(self.draft.body.as_str());
        let n = if self.text_cursor < v.len() { self.text_cursor } else { v.len() };
        let before = crate::text::string_of(&v.as_slice()[0..n]);
        assert(before@ == self@.draft.body.take(n as int));
        let rows = count_display_lines(before.as_str(), self.wrap_body, width);
        let cursor_line = rows.saturating_sub(1);
        let view_height = self.params_area.height.saturating_sub(2);
        if view_height == 0 {
            return;
        }
        if cursor_line < self.request_scroll {
            self.request_scroll = cursor_line;
        } else if cursor_line >= self.request_scroll + view_height {
            self.request_scroll = cursor_line.saturating_sub(view_height).saturating_add(1);
        }
    }
}


/// Scrolling the response down and then up by the same number of rows comes back to
/// where it was, unless the end of the response stopped the scroll.
pub proof fn law_scroll_down_then_up(s: AppValue, amount: u16)
    requires
        s.response_scroll + amount <= sat_sub16(response_rows(s) as int, sat_sub16(s.response_area.height as int, 2) as int),
    ensures
        sat_sub16(response_scrolled_down(s, amount) as int, amount as int) == s.response_scroll,
{
}

/// Scrolling down never goes past the offset at which the last row is at the bottom of
/// the panel, unless the response was already scrolled further.
pub proof fn law_scroll_down_bounded(s: AppValue, amount: u16)
    ensures
        response_scrolled_down(s, amount) <= sat_sub16(response_rows(s) as int, sat_sub16(s.response_area.height as int, 2) as int),
{
}

proof fn lemma_join_front(xs: Seq<Seq<char>>)
    requires
        xs.len() >= 2,
    ensures
        join_lines(xs) == xs[0] + seq!['\n'] + join_lines(xs.drop_first()),
    decreases xs.len(),
{
    if xs.len() == 2 {
        assert(xs.drop_last() =~= seq![xs[0]]);
        assert(xs.drop_first() =~= seq![xs[1]]);
        assert(join_lines(xs.drop_last()) == xs[0]);
        assert(join_lines(xs.drop_first()) == xs[1]);
        assert(xs.last() == xs[1]);
        assert(join_lines(xs) == join_lines(xs.drop_last()) + seq!['\n'] + xs.last());
    } else {
        let front = xs.drop_last();
        lemma_join_front(front);
        assert(front.drop_first() =~= xs.drop_first().drop_last());
        assert(front[0] == xs[0]);
        assert(xs.drop_first().last() == xs.last());
        assert(join_lines(xs.drop_first()) == join_lines(xs.drop_first().drop_last()) + seq!['\n'] + xs.last());
        assert(xs[0] + seq!['\n'] + join_lines(xs.drop_first())
            =~= (xs[0] + seq!['\n'] + join_lines(front.drop_first())) + seq!['\n'] + xs.last());
        assert(join_lines(xs) == join_lines(front) + seq!['\n'] + xs.last());
    }
}

/// Whether a cookie fills one line of its own: it is not empty, holds no line break and
/// does not end in a carriage return.
pub open spec fn single_line(c: Seq<char>) -> bool {
    &&& c.len() > 0
    &&& forall|k: int| 0 <= k < c.len() ==> c[k] != '\n'
    &&& c.last() != '\r'
}

proof fn lemma_lines_of_join(xs: Seq<Seq<char>>)
    requires
        xs.len() >= 1,
        forall|i: int| 0 <= i < xs.len() ==> single_line(#[trigger] xs[i]),
    ensures
        lines_spec(join_lines(xs)) == xs,
    decreases xs.len(),
{
    let x = xs[0];
    assert(single_line(x));
    if xs.len() == 1 {
        lemma_first_index_at(x, '\n', x.len() as int);
        assert(lines_spec(x) == seq![x]);
        assert(seq![x] =~= xs);
    } else {
        let rest = xs.drop_first();
        assert forall|i: int| 0 <= i < rest.len() implies single_line(#[trigger] rest[i]) by {
            assert(rest[i] == xs[i + 1]);
        }
        lemma_lines_of_join(rest);
        lemma_join_front(xs);
        let t = join_lines(xs);
        let n = x.len() as int;
        assert forall|k: int| 0 <= k < n implies t[k] != '\n' by {
            assert(t[k] == x[k]);
        }
        assert(t[n] == '\n');
        lemma_first_index_at(t, '\n', n);
        assert(t.subrange(0, n) =~= x);
        assert(strip_cr(x) == x);
        assert(t.subrange(n + 1, t.len() as int) =~= join_lines(rest));
        assert(lines_spec(t) == seq![x] + lines_spec(join_lines(rest)));
        assert(seq![x] + rest =~= xs);
    }
}

/// The Cookies tab shows one line per cookie, in order: when the response has cookies
/// (each a single line of text) and no error, the lines of the tab's text are exactly
/// the cookies.
pub proof fn law_cookies_tab_lists_every_cookie(s: AppValue)
    requires
        s.response.error is None,
        s.active_response_tab == ResponseTab::Cookies,
        s.response.cookies.len() > 0,
        forall|i: int| 0 <= i < s.response.cookies.len() ==> single_line(#[trigger] s.response.cookies[i]),
    ensures
        lines_spec(response_text_spec(s)) == s.response.cookies,
{
    lemma_lines_of_join(s.response.cookies);
}

} // verus!
