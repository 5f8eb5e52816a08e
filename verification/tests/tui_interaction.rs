use rata::tui::{
    ActiveBlock, AppAction, KeyCode, KeyInput, MouseInput, MouseKind, RequestTab, ResponseTab, Task, TuiApp,
};

fn key(code: KeyCode) -> KeyInput {
    KeyInput { code, ctrl: false }
}

fn press(column: u16, row: u16) -> MouseInput {
    MouseInput { kind: MouseKind::LeftDown, column, row }
}

#[test]
fn tui_app_edits_url_from_key_input() {
    let mut app = TuiApp::new(None, &[]);

    app.handle_key(key(KeyCode::Char('e')), None);
    for value in "http://localhost:8000/v1/models".chars() {
        app.handle_key(key(KeyCode::Char(value)), None);
    }
    app.handle_key(key(KeyCode::Backspace), None);
    app.handle_key(key(KeyCode::Esc), None);

    assert_eq!(app.draft.url, "http://localhost:8000/v1/model");
}

#[test]
fn response_view_uses_tabs_and_pretty_json_body() {
    let mut app = TuiApp::new(None, &[]);
    app.response.body = r#"{"ok":true,"items":[{"id":1}]}"#.to_string();
    app.response.headers = vec![("content-type".to_string(), "application/json".to_string())];
    app.response.cookies = vec!["session=abc; Path=/".to_string()];

    assert_eq!(app.response_tabs(), ["Body".to_string(), "Headers (1)".to_string(), "Cookies (1)".to_string()]);
    assert_eq!(app.active_response_tab, ResponseTab::Body);
    assert_eq!(
        app.active_response_string(),
        "{\n  \"items\": [\n    {\n      \"id\": 1\n    }\n  ],\n  \"ok\": true\n}"
    );

    app.active_response_tab = ResponseTab::Headers;
    assert_eq!(app.active_response_string(), "content-type: application/json");

    app.active_response_tab = ResponseTab::Cookies;
    assert_eq!(app.active_response_string(), "session=abc; Path=/");
}

#[test]
fn response_tabs_are_clickable() {
    let mut app = TuiApp::new(None, &[]);

    app.handle_mouse(press(9, 3), None);
    assert_eq!(app.active_response_tab, ResponseTab::Headers);

    app.handle_mouse(press(25, 3), None);
    assert_eq!(app.active_response_tab, ResponseTab::Cookies);

    app.handle_mouse(press(2, 3), None);
    assert_eq!(app.active_response_tab, ResponseTab::Body);
}

#[test]
fn end_key_moves_body_cursor_to_end_of_current_line() {
    let mut app = TuiApp::new(None, &[]);
    app.active_block = ActiveBlock::Params;
    app.active_request_tab = RequestTab::Body;
    app.draft.body = "first\n     asdf   \nthird".to_string();
    app.text_cursor = 8;

    app.handle_key(key(KeyCode::End), None);

    assert_eq!(app.text_cursor, "first\n     asdf".chars().count());
}

#[test]
fn home_key_moves_body_cursor_to_start_of_current_line() {
    let mut app = TuiApp::new(None, &[]);
    app.active_block = ActiveBlock::Params;
    app.active_request_tab = RequestTab::Body;
    app.draft.body = "first\n     asdf\nthird".to_string();
    app.text_cursor = 14;

    app.handle_key(key(KeyCode::Home), None);

    assert_eq!(app.text_cursor, "first\n     ".chars().count());
}

#[test]
fn ctrl_q_quits_and_other_keys_continue() {
    let mut app = TuiApp::new(None, &[]);
    let (action, _) = app.handle_key(KeyInput { code: KeyCode::Char('q'), ctrl: true }, None);
    assert_eq!(action, AppAction::Quit);
    let (action, _) = app.handle_key(key(KeyCode::Char('q')), None);
    assert_eq!(action, AppAction::Continue);
}

#[test]
fn error_window_takes_keys_until_closed() {
    let mut app = TuiApp::new(None, &[]);
    app.error_popup = Some("boom".to_string());
    let (action, task) = app.handle_key(KeyInput { code: KeyCode::Char('q'), ctrl: true }, None);
    assert_eq!(action, AppAction::Continue);
    assert!(matches!(task, Task::Idle));
    assert_eq!(app.error_popup.as_deref(), Some("boom"));
    app.handle_key(key(KeyCode::Enter), None);
    assert_eq!(app.error_popup, None);
}

#[test]
fn escape_closes_menus() {
    let mut app = TuiApp::new(None, &[]);
    app.examples_dropdown_open = true;
    app.method_dropdown_open = true;
    app.active_block = ActiveBlock::MethodDropdown;
    app.handle_key(key(KeyCode::Esc), None);
    assert!(!app.examples_dropdown_open);
    assert!(!app.method_dropdown_open);
    assert_eq!(app.active_block, ActiveBlock::Request);
}

#[test]
fn backspace_undoes_typing_in_the_body() {
    let mut app = TuiApp::new(None, &[]);
    app.active_block = ActiveBlock::Params;
    app.active_request_tab = RequestTab::Body;
    app.draft.body = "ab\ncd".to_string();
    app.text_cursor = 4;
    app.handle_key(key(KeyCode::Char('x')), None);
    assert_eq!(app.draft.body, "ab\ncxd");
    app.handle_key(key(KeyCode::Backspace), None);
    assert_eq!(app.draft.body, "ab\ncd");
}

#[test]
fn enter_on_the_url_asks_to_send_once() {
    let mut app = TuiApp::new(None, &[]);
    app.active_block = ActiveBlock::Request;
    app.draft.url = "http://example.com/x".to_string();
    let (_, task) = app.handle_key(key(KeyCode::Enter), None);
    match task {
        Task::Send(draft) => assert_eq!(draft.url, "http://example.com/x"),
        _ => panic!("expected a request to send"),
    }
    assert!(app.is_sending);
    let (_, task) = app.handle_key(key(KeyCode::Enter), None);
    assert!(matches!(task, Task::Idle));
}

#[test]
fn adding_and_toggling_query_rows() {
    let mut app = TuiApp::new(None, &[]);
    app.active_block = ActiveBlock::Params;
    app.active_request_tab = RequestTab::Query;
    app.handle_key(key(KeyCode::Enter), None);
    assert_eq!(app.draft.params.len(), 1);
    assert_eq!(app.param_edit_mode, rata::tui::ParamEditMode::Key);
    app.handle_key(key(KeyCode::Char('a')), None);
    app.handle_key(key(KeyCode::Tab), None);
    app.handle_key(key(KeyCode::Char('1')), None);
    assert_eq!(app.draft.params[0].key, "a");
    assert_eq!(app.draft.params[0].value, "1");
    app.handle_key(key(KeyCode::Esc), None);
    app.handle_key(key(KeyCode::Char(' ')), None);
    assert!(!app.draft.params[0].enabled);
    assert_eq!(app.request_tabs(), [" Params (0) ".to_string(), " Body ".to_string(), " Headers (1) ".to_string()]);
}

#[test]
fn release_copies_the_response_selection() {
    let mut app = TuiApp::new(None, &[]);
    app.response.body = "hello world".to_string();
    app.response_area = rata::tui::Rect { x: 0, y: 10, width: 40, height: 10 };
    app.response_tab_origin = (0, 10);
    app.handle_mouse(press(1, 11), None);
    app.handle_mouse(MouseInput { kind: MouseKind::LeftDrag, column: 5, row: 11 }, None);
    let task = app.handle_mouse(MouseInput { kind: MouseKind::LeftUp, column: 5, row: 11 }, None);
    match task {
        Task::Copy(text) => assert_eq!(text, "hello"),
        _ => panic!("expected a copy"),
    }
    assert_eq!(app.drag_target, rata::tui::DragTarget::Nothing);
}

#[test]
fn scrolling_down_then_up_comes_back() {
    let mut app = TuiApp::new(None, &[]);
    app.response.body = (0..40).map(|i| i.to_string()).collect::<Vec<_>>().join("\n");
    app.response_area = rata::tui::Rect { x: 0, y: 0, width: 20, height: 12 };
    app.scroll_response_down(5);
    assert_eq!(app.response_scroll, 5);
    app.scroll_response_up(5);
    assert_eq!(app.response_scroll, 0);
    app.scroll_response_down(100);
    assert_eq!(app.response_scroll, 30);
}

#[test]
fn request_tab_bar_is_clickable() {
    let mut app = TuiApp::new(None, &[]);
    app.params_area = rata::tui::Rect { x: 10, y: 5, width: 50, height: 10 };
    app.handle_mouse(press(11, 5), None);
    assert_eq!(app.active_request_tab, RequestTab::Query);
    app.handle_mouse(press(26, 5), None);
    assert_eq!(app.active_request_tab, RequestTab::Body);
    app.handle_mouse(press(33, 5), None);
    assert_eq!(app.active_request_tab, RequestTab::Headers);
    assert_eq!(app.active_block, ActiveBlock::Params);
}

#[test]
fn response_tab_bounds_follow_labels() {
    let app = TuiApp::new(None, &[]);
    assert_eq!(app.response_tab_bounds(), vec![(1, 4), (8, 18), (22, 32)]);
}

#[test]
fn cursor_blinks_every_half_second() {
    let app = TuiApp::new(None, &[]);
    assert!(app.cursor_visible(0));
    assert!(!app.cursor_visible(500));
    assert!(app.cursor_visible(1250));
}

#[test]
fn space_twice_keeps_a_header_row() {
    let mut app = TuiApp::new(None, &[]);
    app.active_block = ActiveBlock::Params;
    app.active_request_tab = RequestTab::Headers;
    app.selected_request_row = 0;
    let before = app.draft.headers[0].enabled;
    app.handle_key(key(KeyCode::Char(' ')), None);
    assert_eq!(app.draft.headers[0].enabled, !before);
    app.handle_key(key(KeyCode::Char(' ')), None);
    assert_eq!(app.draft.headers[0].enabled, before);
    assert_eq!(app.draft.headers[0].key, "user-agent");
}

#[test]
fn enter_edits_the_selected_value_and_enter_again_saves_it() {
    let mut app = TuiApp::new(None, &[]);
    app.active_block = ActiveBlock::Params;
    app.active_request_tab = RequestTab::Headers;
    app.selected_request_row = 0;
    let enabled = app.draft.headers[0].enabled;
    app.handle_key(key(KeyCode::Enter), None);
    assert_eq!(app.param_edit_mode, rata::tui::ParamEditMode::Value);
    assert_eq!(app.draft.headers[0].enabled, enabled);
    app.handle_key(key(KeyCode::Char('x')), None);
    app.handle_key(key(KeyCode::Enter), None);
    assert_eq!(app.param_edit_mode, rata::tui::ParamEditMode::Off);
    assert_eq!(app.draft.headers[0].value, "rata/0.1.0x");
}

#[test]
fn escape_cancels_an_edit() {
    let mut app = TuiApp::new(None, &[]);
    app.active_block = ActiveBlock::Params;
    app.active_request_tab = RequestTab::Headers;
    app.selected_request_row = 0;
    app.handle_key(key(KeyCode::Enter), None);
    app.handle_key(key(KeyCode::Backspace), None);
    app.handle_key(key(KeyCode::Char('y')), None);
    assert_eq!(app.draft.headers[0].value, "rata/0.1.y");
    app.handle_key(key(KeyCode::Esc), None);
    assert_eq!(app.param_edit_mode, rata::tui::ParamEditMode::Off);
    assert_eq!(app.draft.headers[0].value, "rata/0.1.0");
    assert_eq!(app.draft.headers[0].key, "user-agent");
}

#[test]
fn j_stops_at_the_add_row() {
    let mut app = TuiApp::new(None, &[]);
    app.active_block = ActiveBlock::Params;
    app.active_request_tab = RequestTab::Headers;
    app.selected_request_row = 0;
    app.handle_key(key(KeyCode::Char('j')), None);
    assert_eq!(app.selected_request_row, 1);
    app.handle_key(key(KeyCode::Char('j')), None);
    assert_eq!(app.selected_request_row, 1);
    assert_eq!(app.add_row_label().text, "<Add new header...>");
    assert!(app.add_row_highlighted());
}

#[test]
fn clicking_a_row_edits_it() {
    let mut app = TuiApp::new(None, &[]);
    app.active_request_tab = RequestTab::Headers;
    app.params_area = rata::tui::Rect { x: 10, y: 10, width: 40, height: 10 };
    app.handle_mouse(press(15, 12), None);
    assert_eq!(app.active_block, ActiveBlock::Params);
    assert_eq!(app.selected_request_row, 0);
    assert_eq!(app.param_edit_mode, rata::tui::ParamEditMode::Value);
    app.handle_mouse(press(15, 13), None);
    assert_eq!(app.selected_request_row, 1);
    assert_eq!(app.param_edit_mode, rata::tui::ParamEditMode::Off);
}

#[test]
fn dragging_the_collections_border_keeps_the_width_in_range() {
    let mut app = TuiApp::new(None, &[]);
    app.drag_target = rata::tui::DragTarget::Collections;
    app.handle_mouse(MouseInput { kind: MouseKind::LeftDrag, column: 200, row: 3 }, None);
    assert_eq!(app.collections_width, 120);
    app.handle_mouse(MouseInput { kind: MouseKind::LeftDrag, column: 4, row: 3 }, None);
    assert_eq!(app.collections_width, 10);
    app.handle_mouse(MouseInput { kind: MouseKind::LeftDrag, column: 42, row: 3 }, None);
    assert_eq!(app.collections_width, 42);
}
