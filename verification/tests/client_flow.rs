use rata::flow::find_example;
use rata::method::HttpMethod;
use rata::refs::JsonValue;
use rata::project::{ApiDocument, ApiOperation, ApiParameter, ApiPath, ApiPathItem, ExampleFile, ParamLocation, RataProject};
use rata::tui::{ActiveBlock, ExampleData, RequestTab, ResponseView, Task, TuiApp};

fn op(tag: &str, id: &str, params: Vec<Option<ApiParameter>>) -> ApiOperation {
    ApiOperation { tags: vec![tag.to_string()], summary: Some(id.to_string()), operation_id: Some(id.to_string()), parameters: params }
}

fn project() -> RataProject {
    let id = ApiParameter { name: "id".to_string(), location: ParamLocation::Path, description: None, required: true };
    let token = ApiParameter { name: "X-Token".to_string(), location: ParamLocation::Header, description: None, required: false };
    let limit = ApiParameter { name: "limit".to_string(), location: ParamLocation::Query, description: None, required: false };
    let doc = ApiDocument {
        servers: vec!["https://api.example.com/".to_string()],
        paths: vec![
            ApiPath {
                path: "/users/{id}".to_string(),
                item: Some(ApiPathItem {
                    get: Some(op("users", "getUser", vec![Some(id), Some(token)])),
                    post: None,
                    put: None,
                    patch: None,
                    delete: None,
                    parameters: Vec::new(),
                }),
            },
            ApiPath {
                path: "/users".to_string(),
                item: Some(ApiPathItem {
                    get: Some(op("users", "listUsers", vec![Some(limit)])),
                    post: None,
                    put: None,
                    patch: None,
                    delete: None,
                    parameters: Vec::new(),
                }),
            },
            ApiPath {
                path: "/teams".to_string(),
                item: Some(ApiPathItem {
                    get: Some(op("teams", "listTeams", Vec::new())),
                    post: None,
                    put: None,
                    patch: None,
                    delete: None,
                    parameters: Vec::new(),
                }),
            },
        ],
    };
    RataProject::from_document("/p/.rata".to_string(), "/p/.rata/openapi.yaml".to_string(), &doc)
}

#[test]
fn choosing_an_operation_fills_the_request() {
    let project = project();
    let operation = TuiApp::find_operation(&project, HttpMethod::Get, &"/users/{id}".to_string()).unwrap();
    let mut app = TuiApp::new(Some(&project), &[]);
    let task = app.select_operation(&operation);

    assert_eq!(app.selected_operation, Some((HttpMethod::Get, "/users/{id}".to_string())));
    assert_eq!(app.draft.url, "{{baseUrl}}/users/{id}");
    assert_eq!(app.draft.body, "");
    assert_eq!(app.draft.params.len(), 1);
    assert_eq!(app.draft.params[0].key, "id");
    assert!(app.draft.params[0].enabled);
    assert_eq!(app.draft.headers.len(), 2);
    assert_eq!(app.draft.headers[0].key, "X-Token");
    assert!(!app.draft.headers[0].enabled);
    assert_eq!(app.draft.headers[1].key, "user-agent");
    assert_eq!(app.draft.headers[1].value, "rata/0.1.0");
    assert!(matches!(task, Task::ListExamples(o, true) if o.path == "/users/{id}"));
}

#[test]
fn stepping_walks_the_open_collections_in_order() {
    let project = project();
    let mut app = TuiApp::new(Some(&project), &[]);
    app.selected_operation = None;

    app.step_operation(Some(&project), true);
    assert_eq!(app.selected_operation, Some((HttpMethod::Get, "/users/{id}".to_string())));
    app.step_operation(Some(&project), true);
    assert_eq!(app.selected_operation, Some((HttpMethod::Get, "/users".to_string())));
    app.step_operation(Some(&project), false);
    assert_eq!(app.selected_operation, Some((HttpMethod::Get, "/users/{id}".to_string())));

    app.collapsed_tags = vec!["users".to_string()];
    assert_eq!(app.visible_operations(&project).len(), 1);
    assert!(matches!(app.step_operation(None, true), Task::Idle));
}

#[test]
fn editing_the_url_selects_the_matching_operation() {
    let project = project();
    let mut app = TuiApp::new(Some(&project), &[]);
    app.draft.method = HttpMethod::Get;
    app.draft.url = "https://api.example.com/users/42".to_string();
    app.draft.body = "left over".to_string();

    let task = app.handle_url_edited(Some(&project));

    assert_eq!(app.selected_operation, Some((HttpMethod::Get, "/users/{id}".to_string())));
    assert_eq!(app.draft.body, "");
    assert_eq!(app.draft.headers[0].key, "user-agent");
    assert_eq!(app.draft.headers[1].key, "X-Token");
    assert!(matches!(task, Task::ListExamples(o, false) if o.path == "/users/{id}"));

    app.edit_url("https://api.example.com/nowhere".to_string());
    assert_eq!(app.draft.url, "https://api.example.com/nowhere");
    assert!(matches!(app.handle_url_edited(Some(&project)), Task::Idle));
    assert_eq!(app.selected_operation, None);
    assert!(app.draft.params.is_empty());
}

#[test]
fn loading_an_example_sets_rows_and_body() {
    let project = project();
    let operation = TuiApp::find_operation(&project, HttpMethod::Get, &"/users".to_string()).unwrap();
    let mut app = TuiApp::new(Some(&project), &[]);
    app.select_operation(&operation);

    app.load_example(&ExampleData {
        params: Some(vec![("limit".to_string(), "10".to_string()), ("page".to_string(), "2".to_string())]),
        headers: None,
        body: Some(JsonValue::Object(vec![("a".to_string(), JsonValue::Number("1".to_string()))])),
    });

    assert_eq!(app.draft.body, "{\n  \"a\": 1\n}");
    assert_eq!(app.draft.params[0].key, "limit");
    assert_eq!(app.draft.params[0].value, "10");
    assert!(app.draft.params[0].enabled);
    assert_eq!(app.draft.params[1].key, "page");
    assert_eq!(app.draft.params[1].value, "2");
    assert_eq!(app.active_request_tab, RequestTab::Query);

    app.load_example(&ExampleData { params: None, headers: None, body: Some(JsonValue::Object(vec![])) });
    assert_eq!(app.draft.body, "{}");
    app.draft.params.clear();
    app.update_request_tab();
    assert_eq!(app.active_request_tab, RequestTab::Body);
}

#[test]
fn listed_examples_are_shown_and_found_by_name() {
    let mut app = TuiApp::new(None, &[]);
    let files = vec![
        ExampleFile { name: "a.yaml".to_string(), path: "/x/a.yaml".to_string() },
        ExampleFile { name: "b.yaml".to_string(), path: "/x/b.yaml".to_string() },
    ];
    app.examples_listed(&files, true);
    assert_eq!(app.model.examples, vec!["a.yaml".to_string(), "b.yaml".to_string()]);
    assert_eq!(find_example(&files, "b.yaml"), Some(1));
    assert_eq!(find_example(&files, "c.yaml"), None);
    assert!(matches!(app.example_task(None, 0), Task::Idle));
    assert!(matches!(app.example_task(None, 5), Task::Idle));
}

#[test]
fn choosing_an_example_row_asks_to_load_it() {
    let project = project();
    let operation = TuiApp::find_operation(&project, HttpMethod::Get, &"/users".to_string()).unwrap();
    let mut app = TuiApp::new(Some(&project), &[]);
    app.select_operation(&operation);
    app.model.examples = vec!["first.yaml".to_string(), "second.yaml".to_string()];
    assert!(matches!(app.example_task(Some(&project), 1), Task::LoadExample(o, n) if o.path == "/users" && n == "second.yaml"));
    assert!(matches!(app.example_task(Some(&project), 2), Task::Idle));
}

#[test]
fn a_finished_request_ends_the_wait() {
    let mut app = TuiApp::new(None, &[]);
    app.is_sending = true;
    app.finish_send(Ok(ResponseView {
        status: Some(201),
        body: "done".to_string(),
        headers: Vec::new(),
        cookies: Vec::new(),
        error: None,
    }));
    assert!(!app.is_sending);
    assert_eq!(app.response.status, Some(201));
    assert_eq!(app.response.body, "done");

    app.is_sending = true;
    app.finish_send(Err("connection refused".to_string()));
    assert!(!app.is_sending);
    assert_eq!(app.response.error, Some("connection refused".to_string()));
    assert_eq!(app.response.body, "done");
}

#[test]
fn the_waiting_animation_wraps() {
    let mut app = TuiApp::new(None, &[]);
    app.sending_frame = 3;
    app.sending_tick();
    assert_eq!(app.sending_frame, 4);
    app.sending_frame = usize::MAX;
    app.sending_tick();
    assert_eq!(app.sending_frame, 0);
}

#[test]
fn sending_twice_sends_once() {
    let mut app = TuiApp::new(None, &[]);
    app.draft.url = "http://localhost/x".to_string();
    assert!(matches!(app.send(), Task::Send(d) if d.url == "http://localhost/x"));
    assert!(app.is_sending);
    assert!(matches!(app.send(), Task::Idle));
    app.active_block = ActiveBlock::Nothing;
}

#[test]
fn an_edited_url_is_the_request_sent_and_the_reply_is_shown() {
    let mut app = TuiApp::new(None, &[]);
    app.edit_url("http://127.0.0.1:8080/v1/models?limit=1".to_string());
    let draft = match app.send() {
        Task::Send(d) => d,
        _ => panic!("expected a request to send"),
    };
    let prepared = rata::request::prepare_request(&draft, &[], &[]);
    assert_eq!(prepared.method, HttpMethod::Get);
    assert_eq!(prepared.url, "http://127.0.0.1:8080/v1/models?limit=1");
    assert_eq!(prepared.headers, vec![("user-agent".to_string(), "rata/0.1.0".to_string())]);

    app.finish_send(Ok(ResponseView {
        status: Some(200),
        body: "{\"ok\":true}\n".to_string(),
        headers: vec![
            ("content-type".to_string(), "application/json".to_string()),
            ("x-request-id".to_string(), "req_123".to_string()),
        ],
        cookies: vec!["session=abc; Path=/; HttpOnly".to_string()],
        error: None,
    }));
    assert_eq!(app.draft.url, "http://127.0.0.1:8080/v1/models?limit=1");
    assert_eq!(app.response.status, Some(200));
    assert_eq!(app.response.body, "{\"ok\":true}\n");
    assert!(app.response.headers.iter().any(|(n, v)| n == "content-type" && v == "application/json"));
    assert!(app.response.headers.iter().any(|(n, v)| n == "x-request-id" && v == "req_123"));
    assert_eq!(app.response.cookies, vec!["session=abc; Path=/; HttpOnly".to_string()]);
    assert_eq!(app.response.error, None);
}
