use rata::cli::{command_from_args, Args, Command};
use rata::discovery::is_json_document;
use rata::method::{method_color, HttpMethod};
use rata::project::{
    collect_operations, examples_from_entries, ApiDocument, ApiOperation, ApiParameter, ApiPath, ApiPathItem, DirEntry,
    ExampleFile, ParamLocation, RataProject,
};
use rata::tui::{build_model, first_operation, Theme};
use rata::look::paint_rgb;
use rata::view::method_style;

fn op(tag: &str, id: &str, summary: &str, params: Vec<Option<ApiParameter>>) -> ApiOperation {
    ApiOperation {
        tags: vec![tag.to_string()],
        summary: Some(summary.to_string()),
        operation_id: Some(id.to_string()),
        parameters: params,
    }
}

fn item(get: Option<ApiOperation>, post: Option<ApiOperation>, delete: Option<ApiOperation>) -> ApiPathItem {
    ApiPathItem { get, post, put: None, patch: None, delete, parameters: Vec::new() }
}

fn example_document() -> ApiDocument {
    let id = ApiParameter { name: "id".to_string(), location: ParamLocation::Path, description: None, required: true };
    ApiDocument {
        servers: vec!["https://api.example.com".to_string()],
        paths: vec![
            ApiPath {
                path: "/users/{id}".to_string(),
                item: Some(item(
                    Some(op("users", "getUser", "Get user by ID", vec![Some(id)])),
                    None,
                    Some(op("users", "deleteUser", "Delete user", Vec::new())),
                )),
            },
            ApiPath {
                path: "/users".to_string(),
                item: Some(item(
                    Some(op("users", "listUsers", "List users", Vec::new())),
                    Some(op("users", "createUser", "Create user", Vec::new())),
                    None,
                )),
            },
            ApiPath {
                path: "/organizations".to_string(),
                item: Some(item(Some(op("organizations", "listOrganizations", "List organizations", Vec::new())), None, None)),
            },
        ],
    }
}

#[test]
fn discovers_openapi_collections_matches_urls_and_finds_examples() {
    let project = RataProject::from_document(
        "/tmp/p/.rata".to_string(),
        "/tmp/p/.rata/openapi.yaml".to_string(),
        &example_document(),
    );

    assert_eq!(project.openapi_path(), "/tmp/p/.rata/openapi.yaml");
    assert_eq!(project.collections()[0].name, "users");
    assert_eq!(project.collections()[0].operations.len(), 4);
    assert_eq!(project.collections()[0].operations[0].method, HttpMethod::Get);
    assert_eq!(project.collections()[0].operations[0].summary, "Get user by ID");
    assert_eq!(project.collections()[1].name, "organizations");

    let matched = project.match_url(HttpMethod::Get, "https://api.example.com/users/42").unwrap().unwrap();
    assert_eq!(matched.operation.path, "/users/{id}");
    assert_eq!(matched.path_params, vec![("id".to_string(), "42".to_string())]);

    assert_eq!(project.example_dir(&matched.operation), "/tmp/p/.rata/examples/users/{id}/get");
    let entries = vec![
        DirEntry { name: "success.yaml".to_string(), path: "/tmp/p/.rata/examples/users/{id}/get/success.yaml".to_string() },
        DirEntry { name: "notes.txt".to_string(), path: "/tmp/p/.rata/examples/users/{id}/get/notes.txt".to_string() },
    ];
    let examples = examples_from_entries(&entries);
    assert_eq!(examples.len(), 1);
    assert_eq!(examples[0].name, "success.yaml");
    assert_eq!(examples[0].path, "/tmp/p/.rata/examples/users/{id}/get/success.yaml");
}

#[test]
fn builds_dark_postman_style_model_from_openapi_project() {
    let doc = ApiDocument {
        servers: vec!["https://api.example.com".to_string()],
        paths: vec![
            ApiPath {
                path: "/users/{id}".to_string(),
                item: Some(item(Some(op("users", "getUser", "Get user by ID", Vec::new())), None, None)),
            },
            ApiPath {
                path: "/users".to_string(),
                item: Some(item(None, Some(op("users", "createUser", "Create user", Vec::new())), None)),
            },
        ],
    };
    let project = RataProject::from_document("/tmp/q/.rata".to_string(), "/tmp/q/.rata/openapi.yaml".to_string(), &doc);
    let examples = vec![ExampleFile {
        name: "success.yaml".to_string(),
        path: "/tmp/q/.rata/users/{id}/get/success.yaml".to_string(),
    }];

    let model = build_model(Some(&project), &examples);

    assert_eq!(model.theme, Theme::Dark);
    assert_eq!(model.collections_title, "Collections");
    assert_eq!(model.selected_request_url, "https://api.example.com/users/{id}");
    assert_eq!(model.examples, vec!["success.yaml".to_string()]);
    assert_eq!(first_operation(&project).unwrap().path, "/users/{id}");
    let op = first_operation(&project).unwrap();
    assert_eq!(project.listed_example_dir(op, false), "/tmp/q/.rata/users/{id}/get");
    assert_eq!(project.listed_example_dir(op, true), "/tmp/q/.rata/examples/users/{id}/get");
}

#[test]
fn no_url_selects_tui_mode() {
    let command = command_from_args("GET", None).unwrap();
    assert_eq!(command, Command::Tui);
}

#[test]
fn url_selects_request_mode_with_get_by_default() {
    let command = command_from_args("GET", Some("https://api.example.com/users/42".to_string())).unwrap();
    assert_eq!(
        command,
        Command::Request { method: HttpMethod::Get, url: "https://api.example.com/users/42".to_string() }
    );
}

#[test]
fn method_flag_changes_request_method() {
    let args = Args { method: "POST".to_string(), url: Some("https://api.example.com/users".to_string()) };
    let command = args.command().unwrap();
    assert_eq!(
        command,
        Command::Request { method: HttpMethod::Post, url: "https://api.example.com/users".to_string() }
    );
}

#[test]
fn unknown_method_is_refused() {
    let err = command_from_args("brew", None).unwrap_err();
    assert_eq!(err.value, "BREW");
    assert_eq!(err.message(), "unsupported HTTP method: BREW");
    assert_eq!("del".parse::<HttpMethod>().unwrap(), HttpMethod::Delete);
}

#[test]
fn http_methods_have_distinct_styles() {
    let rgb = |m: HttpMethod| paint_rgb(method_style(m).fg.unwrap()).unwrap();
    assert_eq!(rgb(HttpMethod::Get), (47, 209, 124));
    assert_eq!(rgb(HttpMethod::Post), (245, 184, 75));
    assert_eq!(rgb(HttpMethod::Delete), (255, 123, 114));
    assert!(method_style(HttpMethod::Get).bold);
    assert_eq!(method_color(HttpMethod::Put), method_color(HttpMethod::Patch));
}

#[test]
fn invalid_url_is_reported() {
    let project = RataProject::from_document("/r/.rata".to_string(), "/r/.rata/openapi.json".to_string(), &example_document());
    let err = project.match_url(HttpMethod::Get, "/users/1").unwrap_err();
    assert_eq!(err.message, "relative URL without a base");
    assert!(project.match_url(HttpMethod::Post, "https://api.example.com/users/42").unwrap().is_none());
}

#[test]
fn collections_group_operations_by_first_tag() {
    let cs = collect_operations(&example_document());
    let total: usize = cs.iter().map(|c| c.operations.len()).sum();
    assert_eq!(total, 5);
    assert!(cs.iter().all(|c| c.operations.iter().all(|o| o.tag == c.name)));
    assert_eq!(cs[0].operations[1].method, HttpMethod::Delete);
    assert_eq!(cs[0].operations[0].parameters[0].location, "path");
}

#[test]
fn json_documents_are_told_by_extension() {
    assert!(is_json_document("/a/b.yaml/.rata/openapi.json"));
    assert!(!is_json_document("/a/b.json/.rata/openapi.yaml"));
}

#[test]
fn a_project_is_made_from_the_text_of_its_document() {
    let yaml = "openapi: 3.0.3\ninfo:\n  title: Example API\n  version: 1.0.0\nservers:\n  - url: https://api.example.com\npaths:\n  /users/{id}:\n    get:\n      tags: [users]\n      summary: Get user by ID\n      parameters:\n        - name: id\n          in: path\n          required: true\n          schema:\n            type: string\n      responses:\n        \"200\":\n          description: ok\n  /organizations:\n    get:\n      tags: [organizations]\n      responses:\n        \"200\":\n          description: ok\n";
    let project = RataProject::project_from_source("/p/.rata".to_string(), "/p/.rata/openapi.yaml".to_string(), yaml).unwrap();
    assert_eq!(project.server_url(), Some("https://api.example.com"));
    assert_eq!(project.collections().len(), 2);
    assert_eq!(project.collections()[0].name, "users");
    assert_eq!(project.collections()[0].operations[0].summary, "Get user by ID");
    assert_eq!(project.collections()[0].operations[0].parameters[0].location, "path");
    assert_eq!(project.collections()[1].operations[0].path, "/organizations");

    let json = "{\"openapi\":\"3.0.3\",\"info\":{\"title\":\"x\",\"version\":\"1\"},\"paths\":{}}";
    let empty = RataProject::project_from_source("/p/.rata".to_string(), "/p/.rata/openapi.json".to_string(), json).unwrap();
    assert_eq!(empty.server_url(), None);
    assert!(empty.collections().is_empty());

    assert!(RataProject::project_from_source("/p/.rata".to_string(), "/p/.rata/openapi.yaml".to_string(), "not: [an, openapi").is_err());
    assert!(RataProject::project_from_source("/p/.rata".to_string(), "/p/.rata/openapi.json".to_string(), yaml).is_err());
}
