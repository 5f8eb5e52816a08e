use rata::refs::{
    follow_pointer, parse_index_of, pointer_tokens_of, ref_target_of, resolve_document, resolve_refs, unescape_token,
    Halt, JsonValue, RefError,
};

fn chars(s: &str) -> Vec<char> {
    s.chars().collect()
}

fn s(v: &str) -> JsonValue {
    JsonValue::Str(v.to_string())
}

fn obj(members: Vec<(&str, JsonValue)>) -> JsonValue {
    JsonValue::Object(members.into_iter().map(|(k, v)| (k.to_string(), v)).collect())
}

fn reference(r: &str) -> JsonValue {
    obj(vec![("$ref", s(r))])
}

#[test]
fn reference_targets() {
    assert!(ref_target_of("#/components/schemas/Pet").is_none());
    assert!(ref_target_of("https://example.com/pet.yaml").is_none());
    assert!(ref_target_of("http").is_none());
    assert_eq!(
        ref_target_of("common.yaml#/components/schemas/Pet"),
        Some(("common.yaml".to_string(), Some("/components/schemas/Pet".to_string())))
    );
    assert_eq!(ref_target_of("pet.yaml"), Some(("pet.yaml".to_string(), None)));
    assert_eq!(ref_target_of("pet.yaml#"), Some(("pet.yaml".to_string(), Some(String::new()))));
    assert_eq!(ref_target_of("a#b#c"), Some(("a".to_string(), Some("b#c".to_string()))));
}

#[test]
fn pointer_tokens_unescape_and_split() {
    assert_eq!(pointer_tokens_of(&chars("/a~1b/c~0d")), vec!["a/b".to_string(), "c~d".to_string()]);
    assert_eq!(pointer_tokens_of(&chars("//x")), vec!["x".to_string()]);
    assert_eq!(pointer_tokens_of(&chars("a//b")), vec!["a".to_string(), String::new(), "b".to_string()]);
    assert_eq!(pointer_tokens_of(&chars("/x/")), vec!["x".to_string(), String::new()]);
    assert_eq!(unescape_token(&chars("~01")), "~1");
}

#[test]
fn array_indexes() {
    assert_eq!(parse_index_of(&chars("12")), Some(12));
    assert_eq!(parse_index_of(&chars("+3")), Some(3));
    assert_eq!(parse_index_of(&chars("007")), Some(7));
    assert_eq!(parse_index_of(&chars("")), None);
    assert_eq!(parse_index_of(&chars("+")), None);
    assert_eq!(parse_index_of(&chars("-1")), None);
    assert_eq!(parse_index_of(&chars("1a")), None);
    assert_eq!(parse_index_of(&chars(&usize::MAX.to_string())), Some(usize::MAX));
    assert_eq!(parse_index_of(&chars(&format!("{}0", usize::MAX))), None);
}

#[test]
fn following_a_pointer() {
    let doc = || obj(vec![
        ("a", JsonValue::Array(vec![s("zero"), obj(vec![("b", JsonValue::Number("7".to_string()))])])),
        ("c", JsonValue::Null),
    ]);
    let toks = |p: &str| pointer_tokens_of(&chars(p));
    assert_eq!(follow_pointer(doc(), &toks("/a/1/b")), Ok(JsonValue::Number("7".to_string())));
    assert_eq!(follow_pointer(doc(), &toks("/a/0")), Ok(s("zero")));
    assert!(matches!(follow_pointer(doc(), &toks("/x")), Err(RefError::NotFound(t)) if t == "x"));
    assert!(matches!(follow_pointer(doc(), &toks("/a/one")), Err(RefError::BadIndex(t)) if t == "one"));
    assert!(matches!(follow_pointer(doc(), &toks("/a/2")), Err(RefError::OutOfRange(2))));
    assert!(matches!(follow_pointer(doc(), &toks("/c/d")), Err(RefError::NotContainer(t)) if t == "d"));
}

#[test]
fn a_reference_to_another_file_asks_for_it_then_is_replaced() {
    let root = obj(vec![("pet", reference("models/pet.yaml#/Pet")), ("n", JsonValue::Bool(true))]);
    let mut files: Vec<(String, JsonValue)> = Vec::new();
    match resolve_document(&root, "/api/openapi.yaml", &files) {
        Err(Halt::Need(p)) => assert_eq!(p, "/api/models/pet.yaml"),
        _ => panic!("expected a request for the referenced file"),
    }
    files.push((
        "/api/models/pet.yaml".to_string(),
        obj(vec![("Pet", obj(vec![("type", s("object")), ("tag", reference("tag.yaml"))]))]),
    ));
    match resolve_document(&root, "/api/openapi.yaml", &files) {
        Err(Halt::Need(p)) => assert_eq!(p, "/api/models/tag.yaml"),
        _ => panic!("expected a request for the nested file"),
    }
    files.push(("/api/models/tag.yaml".to_string(), s("a tag")));
    let (value, files_read) = match resolve_document(&root, "/api/openapi.yaml", &files) {
        Ok(done) => done,
        Err(_) => panic!("expected the document to resolve"),
    };
    let expected = obj(vec![
        ("pet", obj(vec![("type", s("object")), ("tag", s("a tag"))])),
        ("n", JsonValue::Bool(true)),
    ]);
    assert_eq!(value, expected);
    assert_eq!(
        files_read,
        vec!["/api/openapi.yaml".to_string(), "/api/models/pet.yaml".to_string(), "/api/models/tag.yaml".to_string()]
    );
}

#[test]
fn a_document_without_a_directory_reads_its_references_as_given() {
    let root = JsonValue::Array(vec![reference("common.yaml")]);
    match resolve_document(&root, "openapi.yaml", &Vec::new()) {
        Err(Halt::Need(p)) => assert_eq!(p, "common.yaml"),
        _ => panic!("expected a request for common.yaml"),
    }
}

#[test]
fn references_within_the_document_and_to_the_web_stay() {
    let root = obj(vec![
        ("a", reference("#/components/schemas/Pet")),
        ("b", reference("https://example.com/pet.yaml")),
        ("c", obj(vec![("$ref", JsonValue::Number("1".to_string()))])),
    ]);
    let (value, files_read) = match resolve_refs(&root, &"/api".to_string(), &Vec::new(), &Vec::new()) {
        Ok(done) => done,
        Err(_) => panic!("expected no file to be read"),
    };
    assert_eq!(value, root);
    assert!(files_read.is_empty());
}

#[test]
fn a_missing_pointer_target_is_reported() {
    let root = reference("b.yaml#/nowhere");
    let files = vec![("/d/b.yaml".to_string(), obj(vec![("here", JsonValue::Null)]))];
    assert!(matches!(resolve_document(&root, "/d/a.yaml", &files), Err(Halt::Failed(RefError::NotFound(t))) if t == "nowhere"));
}

#[test]
fn a_file_that_refers_to_itself_is_a_cycle() {
    let root = reference("a.yaml");
    let files = vec![("/d/a.yaml".to_string(), reference("a.yaml"))];
    assert!(matches!(resolve_document(&root, "/d/a.yaml", &files), Err(Halt::Failed(RefError::Cycle(p))) if p == "/d/a.yaml"));
    let two = vec![("/d/b.yaml".to_string(), reference("c.yaml")), ("/d/c.yaml".to_string(), reference("b.yaml"))];
    assert!(matches!(resolve_document(&reference("b.yaml"), "/d/a.yaml", &two), Err(Halt::Failed(RefError::Cycle(p))) if p == "/d/b.yaml"));
}

#[test]
fn a_long_chain_without_a_cycle_resolves() {
    let n = 100;
    let mut files: Vec<(String, JsonValue)> = Vec::new();
    for i in 0..n {
        let content = if i + 1 < n { reference(&format!("f{}.yaml", i + 1)) } else { s("end") };
        files.push((format!("/d/f{}.yaml", i), content));
    }
    let (value, files_read) = resolve_document(&reference("f0.yaml"), "/d/a.yaml", &files).unwrap();
    assert_eq!(value, s("end"));
    assert_eq!(files_read.len(), n + 1);
}

#[test]
fn a_file_asked_for_is_never_in_the_table() {
    let root = JsonValue::Array(vec![reference("x.yaml"), reference("y.yaml")]);
    let files = vec![("/d/x.yaml".to_string(), JsonValue::Null)];
    match resolve_document(&root, "/d/a.yaml", &files) {
        Err(Halt::Need(p)) => {
            assert_eq!(p, "/d/y.yaml");
            assert!(files.iter().all(|f| f.0 != p));
        }
        _ => panic!("expected a request for y.yaml"),
    }
}

#[test]
fn yaml_text_becomes_a_value() {
    let v = rata::refs::parse_yaml_value("a: 1\nb: [x, true]\n").unwrap();
    assert_eq!(
        v,
        obj(vec![("a", JsonValue::Number("1".to_string())), ("b", JsonValue::Array(vec![s("x"), JsonValue::Bool(true)]))])
    );
    assert!(rata::refs::parse_yaml_value("a: [").is_err());
}

fn num(n: &str) -> JsonValue {
    JsonValue::Number(n.to_string())
}

#[test]
fn a_resolved_document_is_read_as_openapi() {
    let root = obj(vec![
        ("openapi", s("3.0.0")),
        ("info", obj(vec![("title", s("Pets")), ("version", s("1"))])),
        ("servers", JsonValue::Array(vec![obj(vec![("url", s("http://localhost:8080"))])])),
        ("paths", obj(vec![("/pets", reference("paths.yaml#/pets"))])),
    ]);
    let mut files: Vec<(String, JsonValue)> = Vec::new();
    match rata::document::load_resolved(&root, "/api/openapi.yaml", &files) {
        Err(rata::document::LoadError::Stopped(Halt::Need(p))) => assert_eq!(p, "/api/paths.yaml"),
        _ => panic!("expected a request for paths.yaml"),
    }
    let get = obj(vec![
        ("operationId", s("listPets")),
        ("responses", obj(vec![("200", obj(vec![("description", s("ok"))]))])),
    ]);
    files.push(("/api/paths.yaml".to_string(), obj(vec![("pets", obj(vec![("get", get)]))])));
    let (document, value, files_read) = match rata::document::load_resolved(&root, "/api/openapi.yaml", &files) {
        Ok(done) => done,
        Err(_) => panic!("expected an OpenAPI document"),
    };
    assert_eq!(files_read, vec!["/api/openapi.yaml".to_string(), "/api/paths.yaml".to_string()]);
    match &value {
        JsonValue::Object(members) => assert_eq!(members[3].0, "paths"),
        _ => panic!("expected an object"),
    }
    let read = rata::document::read_document(&document);
    assert_eq!(read.servers, vec!["http://localhost:8080".to_string()]);
    assert_eq!(read.paths.len(), 1);
    assert_eq!(read.paths[0].path, "/pets");
    let item = read.paths[0].item.as_ref().unwrap();
    assert_eq!(item.get.as_ref().unwrap().operation_id, Some("listPets".to_string()));
    let api = document.into_openapi();
    assert_eq!(api.openapi, "3.0.0");
    assert_eq!(api.info.title, "Pets");
}

#[test]
fn a_resolved_value_that_is_not_openapi_is_refused() {
    let root = obj(vec![("openapi", num("3"))]);
    match rata::document::load_resolved(&root, "/api/openapi.yaml", &Vec::new()) {
        Err(rata::document::LoadError::NotOpenApi(_)) => {}
        _ => panic!("expected the value to be refused as a document"),
    }
}
