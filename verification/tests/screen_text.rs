use rata::look::{
    apply_cursor_to_text, apply_selection, highlight_json, highlight_non_string, paint_rgb, plain_lines,
    render_with_cursor_spans, Look, Paint, Span,
};
use rata::panels::Selection;
use rata::tui::{ActiveBlock, RequestTab, TuiApp};
use rata::view::{examples_toggle, scrollbar_extent};

fn plain() -> Look {
    Look { fg: None, bg: None, bold: false, reversed: false }
}

fn fg(p: Paint) -> Look {
    Look { fg: Some(p), ..plain() }
}

fn rev(l: Look) -> Look {
    Look { reversed: true, ..l }
}

fn pieces(spans: &[Span]) -> Vec<(String, Look)> {
    spans.iter().map(|s| (s.text.clone(), s.look)).collect()
}

fn expect(v: &[(&str, Look)]) -> Vec<(String, Look)> {
    v.iter().map(|(t, l)| (t.to_string(), *l)).collect()
}

#[test]
fn json_is_coloured_by_kind() {
    let lines = highlight_json("{\"a\": true, \"b\": [1, null, \"x\"]}");
    assert_eq!(lines.len(), 1);
    assert_eq!(
        pieces(&lines[0]),
        expect(&[
            ("{", plain()),
            ("\"a\"", fg(Paint::TermLightBlue)),
            (":", plain()),
            (" ", plain()),
            ("true", fg(Paint::TermYellow)),
            (",", plain()),
            (" ", plain()),
            ("\"b\"", fg(Paint::TermLightBlue)),
            (":", plain()),
            (" ", plain()),
            ("[", plain()),
            ("1", fg(Paint::TermMagenta)),
            (",", plain()),
            (" ", plain()),
            ("null", fg(Paint::TermDarkGray)),
            (",", plain()),
            (" ", plain()),
            ("\"x\"", fg(Paint::TermGreen)),
            ("]", plain()),
            ("}", plain()),
        ])
    );
}

#[test]
fn escaped_quotes_stay_in_the_string() {
    let lines = highlight_json("\"a\\\"b\"\n\"open");
    assert_eq!(lines.len(), 2);
    assert_eq!(pieces(&lines[0]), expect(&[("\"a\\\"b\"", fg(Paint::TermGreen))]));
    assert_eq!(pieces(&lines[1]), expect(&[("\"open", fg(Paint::TermGreen))]));
}

#[test]
fn bare_tokens_take_their_look() {
    assert_eq!(
        pieces(&highlight_non_string("false x 1e-3")),
        expect(&[
            ("false", fg(Paint::TermYellow)),
            (" ", plain()),
            ("x", plain()),
            (" ", plain()),
            ("1e-3", fg(Paint::TermMagenta)),
        ])
    );
}

#[test]
fn a_selection_reverses_the_selected_columns() {
    let sel = Some(Selection { start: (1, 2), end: (0, 1) });
    let lines = apply_selection(plain_lines("hello\nworld\nagain"), sel);
    assert_eq!(pieces(&lines[0]), expect(&[("h", plain()), ("ello", rev(plain()))]));
    assert_eq!(pieces(&lines[1]), expect(&[("wor", rev(plain())), ("ld", plain())]));
    assert_eq!(pieces(&lines[2]), expect(&[("again", plain())]));
    let untouched = apply_selection(plain_lines("abc"), None);
    assert_eq!(pieces(&untouched[0]), expect(&[("abc", plain())]));
}

#[test]
fn the_cursor_is_drawn_on_its_character_or_after_the_text() {
    let lines = apply_cursor_to_text(plain_lines("ab\ncd"), 4, None);
    assert_eq!(pieces(&lines[0]), expect(&[("ab", plain())]));
    assert_eq!(pieces(&lines[1]), expect(&[("c", plain()), ("d", rev(plain()))]));

    let at_line_end = apply_cursor_to_text(plain_lines("ab\ncd"), 2, None);
    assert_eq!(pieces(&at_line_end[0]), expect(&[("ab", plain()), (" ", rev(plain()))]));

    let past = apply_cursor_to_text(Vec::new(), 0, None);
    assert_eq!(past.len(), 1);
    assert_eq!(pieces(&past[0]), expect(&[(" ", rev(plain()))]));

    let selected = apply_cursor_to_text(plain_lines("ab"), 0, Some(Selection { start: (0, 0), end: (0, 1) }));
    assert_eq!(pieces(&selected[0]), expect(&[("a", plain()), ("b", plain())]));
}

#[test]
fn a_single_line_field_shows_its_cursor() {
    let base = fg(Paint::Text);
    assert_eq!(
        pieces(&render_with_cursor_spans("abc", Some(1), base)),
        expect(&[("a", base), ("b", rev(base)), ("c", base)])
    );
    assert_eq!(pieces(&render_with_cursor_spans("abc", Some(3), base)), expect(&[("abc", base), (" ", rev(base))]));
    assert_eq!(pieces(&render_with_cursor_spans("abc", None, base)), expect(&[("abc", base)]));
}

#[test]
fn palette_colours() {
    assert_eq!(paint_rgb(Paint::Accent), Some((255, 138, 95)));
    assert_eq!(paint_rgb(Paint::TermGreen), None);
}

#[test]
fn panel_pieces() {
    assert_eq!(examples_toggle(false), " Examples \u{25be} ");
    assert_eq!(examples_toggle(true), " Examples \u{25b4} ");
    assert_eq!(scrollbar_extent(30, 10), Some(20));
    assert_eq!(scrollbar_extent(10, 10), None);
}

#[test]
fn the_status_title_shows_the_code_in_its_colour() {
    let mut app = TuiApp::new(None, &[]);
    assert_eq!(
        pieces(&app.status_line()),
        expect(&[(" ", plain()), ("Response", fg(Paint::TermWhite)), (" ", plain())])
    );
    app.response.status = Some(404);
    let spans = app.status_line();
    assert_eq!(spans[3].text, "HTTP 404");
    assert_eq!(spans[3].look, Look { fg: Some(Paint::Yellow), bg: None, bold: true, reversed: false });
}

#[test]
fn the_shortcut_bar_offers_edit_only_on_rows() {
    let mut app = TuiApp::new(None, &[]);
    let names = |app: &TuiApp| -> Vec<String> {
        app.shortcut_bar().iter().map(|s| s.text.clone()).filter(|t| t.starts_with(' ') && t.ends_with(' ') && t.len() > 2).collect()
    };
    assert_eq!(names(&app), vec![" Ctrl ", " QUIT ", " SEND ", " WRAP "]);
    app.active_block = ActiveBlock::Params;
    app.active_request_tab = RequestTab::Query;
    app.wrap_body = true;
    assert_eq!(names(&app), vec![" Ctrl ", " QUIT ", " SEND ", " EDIT ", " UNWRAP "]);
}
