use rata::editing::{insert_char_at, remove_char_at, move_cursor_down, move_cursor_up, current_line_bounds};
use rata::json::{pretty_body, pretty_or_raw};
use rata::layout::{count_visual_lines, visual_to_char_index, char_index_to_logical, count_display_lines};
use rata::panels::{format_pairs, extract_text_selection, Selection};
use rata::path_match::{match_path_template, segments};
use rata::template::render;
use rata::numfmt::decimal;
use rata::request::{prepare_request, request_variables};
use rata::tui::{ParamState, RequestDraft};
use rata::method::HttpMethod;
use rata::project::{ApiDocument, RataProject};

fn row(key: &str, value: &str, enabled: bool) -> ParamState {
    ParamState { key: key.to_string(), value: value.to_string(), enabled, required: false }
}

#[test]
fn insert_then_remove_restores_text() {
    let mut s = "héllo".to_string();
    insert_char_at(&mut s, 2, 'X');
    assert_eq!(s, "héXllo");
    remove_char_at(&mut s, 3);
    assert_eq!(s, "héllo");
    insert_char_at(&mut s, 99, '!');
    assert_eq!(s, "héllo!");
}

#[test]
fn cursor_moves_between_lines() {
    let s = "abcd\nxy\nlonger";
    assert_eq!(move_cursor_up(s, 7), 2);
    assert_eq!(move_cursor_down(s, 3), 7);
    assert_eq!(move_cursor_down(s, 12), 14);
    assert_eq!(current_line_bounds(s, 6), (5, 7));
}

#[test]
fn layout_counts_rows_and_maps_cells() {
    assert_eq!(count_visual_lines("abc\ndef\n", 10, true), 2);
    assert_eq!(count_visual_lines("hello world foo", 6, true), 3);
    assert_eq!(count_visual_lines("a\nb\nc", 10, false), 3);
    assert_eq!(count_display_lines("a\nb", false, 10), 2);
    assert_eq!(visual_to_char_index("abc\ndef", 1, 1, 10, false), 5);
    assert_eq!(visual_to_char_index("abc\ndef", 9, 0, 10, false), 7);
    assert_eq!(char_index_to_logical("abc\ndef", 5), (1, 1));
}

#[test]
fn pretty_body_formats_json_and_keeps_other_text() {
    assert_eq!(pretty_body("{\"a\":1}"), "{\n  \"a\": 1\n}");
    assert_eq!(pretty_body("not json"), "not json");
    assert_eq!(pretty_or_raw("raw", None), "raw");
    assert_eq!(pretty_or_raw("raw", Some("pretty".to_string())), "pretty");
}

#[test]
fn pairs_and_selections() {
    let pairs = vec![("a".to_string(), "1".to_string()), ("b".to_string(), "2".to_string())];
    assert_eq!(format_pairs(&pairs, "none"), "a: 1\nb: 2");
    assert_eq!(format_pairs(&[], "none"), "none");
    let sel = Selection { start: (1, 1), end: (0, 2) };
    assert_eq!(extract_text_selection("abcd\nefgh", sel), "cd\nef");
}

#[test]
fn path_templates_capture_placeholders() {
    assert_eq!(segments("/a//b/").len(), 2);
    assert_eq!(
        match_path_template("/users/{id}/posts/{post}", "/users/7/posts/9"),
        Some(vec![("id".to_string(), "7".to_string()), ("post".to_string(), "9".to_string())])
    );
    assert_eq!(match_path_template("/users/{id}", "/users/7/x"), None);
    assert_eq!(match_path_template("/users", "/teams"), None);
}

#[test]
fn templates_render_variables_and_environment() {
    let vars = vec![("baseUrl".to_string(), "http://h".to_string())];
    let env = vec![("TOKEN".to_string(), "t0".to_string())];
    assert_eq!(render("{{baseUrl}}/x?t={{env:TOKEN}}&u={{env:NOPE}}", &vars, &env), "http://h/x?t=t0&u=");
    assert_eq!(render("plain text", &vars, &env), "plain text");
}

#[test]
fn decimal_text() {
    assert_eq!(decimal(0), "0");
    assert_eq!(decimal(1203), "1203");
}

#[test]
fn prepared_request_fills_placeholders_and_keeps_rows_in_use() {
    let draft = RequestDraft {
        method: HttpMethod::Get,
        url: "{{baseUrl}}/users/{id}".to_string(),
        body: "{\"k\":\"{{env:K}}\"}".to_string(),
        params: vec![row("id", "42", true), row("limit", "1", true), row("off", "9", false), row("", "x", true)],
        headers: vec![row("x-a", "{{env:K}}", true), row("x-b", "b", false)],
    };
    let env = vec![("K".to_string(), "v".to_string())];
    let project = RataProject::from_document(
        "/p/.rata".to_string(),
        "/p/.rata/openapi.yaml".to_string(),
        &ApiDocument { servers: vec!["http://localhost:8000/".to_string()], paths: Vec::new() },
    );
    let vars = request_variables(Some(&project));
    assert_eq!(vars, vec![("baseUrl".to_string(), "http://localhost:8000".to_string())]);
    let r = prepare_request(&draft, &vars, &env);
    assert_eq!(r.url, "http://localhost:8000/users/42");
    assert_eq!(r.query, vec![("limit".to_string(), "1".to_string())]);
    assert_eq!(r.headers, vec![("x-a".to_string(), "v".to_string())]);
    assert_eq!(r.body, "{\"k\":\"v\"}");
}

#[test]
fn url_rows_fill_placeholders_or_become_the_query() {
    let params = vec![row("id", "42", true), row("limit", "10", true), row("off", "1", false), row("empty", "", true)];
    let (url, query) = rata::request::fill_url_params("https://x.io/users/{id}", &params);
    assert_eq!(url, "https://x.io/users/42");
    assert_eq!(query, vec![("limit".to_string(), "10".to_string())]);
    let (url2, _) = rata::request::fill_url_params("https://x.io/users/{{id}}", &params);
    assert_eq!(url2, "https://x.io/users/42");
}

#[test]
fn headers_in_use_are_rendered() {
    let headers = vec![row("X-Token", "{{token}}", true), row("X-Off", "1", false), row("", "v", true)];
    let vars = vec![("token".to_string(), "abc".to_string())];
    assert_eq!(
        rata::request::request_headers(&headers, &vars, &[]),
        vec![("X-Token".to_string(), "abc".to_string())]
    );
}

#[test]
fn paths_join_and_name_extensions() {
    assert_eq!(rata::paths::join_path("/a/b", "c.yaml"), "/a/b/c.yaml");
    assert_eq!(rata::paths::join_path("/a/b/", "c.yaml"), "/a/b/c.yaml");
    assert_eq!(rata::paths::join_path("", "c.yaml"), "c.yaml");
    assert_eq!(rata::paths::join_path("/a", "/etc/x"), "/etc/x");
    assert_eq!(rata::paths::extension_of("openapi.yaml"), Some("yaml".to_string()));
    assert_eq!(rata::paths::extension_of(".hidden"), None);
    assert_eq!(rata::paths::extension_of("Makefile"), None);
    assert!(rata::paths::text_le("a.yaml", "b.yaml"));
    assert!(!rata::paths::text_le("b", "a"));
    assert!(rata::paths::text_le("same", "same"));
}

#[test]
fn long_lines_wrap_at_the_width() {
    let line: Vec<char> = "hello world again".chars().collect();
    assert_eq!(rata::layout::wrap_line(&line, 8), vec![(0, 6), (6, 6), (12, 5)]);
    let long: Vec<char> = "abcdefghij".chars().collect();
    assert_eq!(rata::layout::wrap_line(&long, 4), vec![(0, 4), (4, 4), (8, 2)]);
}

#[test]
fn a_clicked_cell_maps_back_to_its_line() {
    let text = "first\nsecond line\nx";
    let i = visual_to_char_index(text, 1, 3, 0, false);
    assert_eq!(char_index_to_logical(text, i), (1, 3));
    let j = visual_to_char_index(text, 2, 40, 80, false);
    assert_eq!(char_index_to_logical(text, j), (2, 1));
}

#[test]
fn up_undoes_down() {
    let s = "abc\ndefgh\nij";
    assert_eq!(move_cursor_up(s, move_cursor_down(s, 2)), 2);
    assert_eq!(move_cursor_up(s, move_cursor_down(s, 6)), 6);
    assert_eq!(move_cursor_up(s, 2), 0);
}

#[test]
fn layout_positions_stay_within_the_text() {
    let text = "hello world foo\n  indented line";
    assert_eq!(visual_to_char_index(text, 0, 0, 6, true), 0);
    assert_eq!(visual_to_char_index("", 0, 0, 6, true), 0);
    for row in 0..8 {
        for col in 0..20 {
            assert!(visual_to_char_index(text, row, col, 6, true) <= text.chars().count());
        }
    }
    let rows = count_visual_lines(text, 6, true);
    assert!(rows >= 2);
    assert!(rows <= text.chars().count() + 1);
    assert_eq!(count_visual_lines("", 6, true), 0);
}
