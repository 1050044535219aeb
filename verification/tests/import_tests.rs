use bookmarks::import::{
    import_json, import_json_bytes, import_onetab, parse_onetab_line, Import, JsonImportError, JsonNode,
};

#[test]
fn onetab_line_splits_at_first_separator() {
    assert_eq!(
        parse_onetab_line("https://a.org | A site | with bar"),
        Some((String::from("https://a.org"), String::from("A site | with bar")))
    );
    assert_eq!(parse_onetab_line("https://a.org | "), Some((String::from("https://a.org"), String::new())));
    assert_eq!(parse_onetab_line("no separator here"), None);
    assert_eq!(parse_onetab_line("a|b"), None);
    assert_eq!(parse_onetab_line(""), None);
}

#[test]
fn onetab_line_round_trip() {
    let url = "https://www.rust-lang.org/learn";
    let desc = "Learn | Rust";
    let line = format!("{url} | {desc}");
    assert_eq!(parse_onetab_line(&line), Some((String::from(url), String::from(desc))));
}

#[test]
fn onetab_import_skips_lines_without_separator() {
    let lines = vec![
        String::from("https://a.org | A"),
        String::new(),
        String::from("https://b.org | B"),
        String::from("garbage"),
    ];
    let bookmarks = import_onetab(&lines);
    assert_eq!(bookmarks.len(), 2);
    assert_eq!(bookmarks[0].url, "https://a.org");
    assert_eq!(bookmarks[0].description, "A");
    assert_eq!(bookmarks[1].url, "https://b.org");
    assert!(bookmarks.iter().all(|b| b.tags.is_empty()));
}

fn leaf(uri: Option<&str>, title: Option<&str>) -> JsonNode {
    let mut members = Vec::new();
    if let Some(t) = title {
        members.push((String::from("title"), JsonNode::Str(t.into())));
    }
    if let Some(u) = uri {
        members.push((String::from("uri"), JsonNode::Str(u.into())));
    }
    JsonNode::Object(members)
}

fn folder(children: Vec<JsonNode>) -> JsonNode {
    JsonNode::Object(vec![
        (String::from("title"), JsonNode::Str("folder".into())),
        (String::from("children"), JsonNode::Array(children)),
    ])
}

#[test]
fn json_import_reads_children_last_first() {
    let root = folder(vec![
        leaf(Some("https://a.org"), Some("A")),
        folder(vec![leaf(Some("https://b.org"), None), leaf(None, Some("no uri"))]),
        leaf(Some("https://c.org"), Some("C")),
        JsonNode::Str("not an object".into()),
    ]);
    let bookmarks = import_json(&root).expect("root is an object");
    let got: Vec<(&str, &str)> =
        bookmarks.iter().map(|b| (b.url.as_str(), b.description.as_str())).collect();
    assert_eq!(got, vec![("https://c.org", "C"), ("https://b.org", ""), ("https://a.org", "A")]);
    assert!(bookmarks.iter().all(|b| b.tags.is_empty()));
}

#[test]
fn json_import_children_not_array_gives_nothing() {
    let root = JsonNode::Object(vec![
        (String::from("children"), JsonNode::Other),
        (String::from("uri"), JsonNode::Str("https://x.org".into())),
    ]);
    assert_eq!(import_json(&root).expect("root is an object").len(), 0);
}

#[test]
fn json_import_root_leaf_is_bookmark() {
    let root = leaf(Some("https://solo.org"), Some("Solo"));
    let bookmarks = import_json(&root).expect("root is an object");
    assert_eq!(bookmarks.len(), 1);
    assert_eq!(bookmarks[0].url, "https://solo.org");
}

#[test]
fn json_import_refuses_non_object_root() {
    assert!(matches!(import_json(&JsonNode::Array(Vec::new())), Err(JsonImportError::RootNotObject)));
    assert!(matches!(import_json(&JsonNode::Other), Err(JsonImportError::RootNotObject)));
}

#[test]
fn json_import_uri_must_be_string() {
    let root = JsonNode::Object(vec![(String::from("uri"), JsonNode::Other)]);
    assert_eq!(import_json(&root).expect("root is an object").len(), 0);
}

#[test]
fn import_command_names() {
    assert_eq!(Import.name(), "import");
    let subs: Vec<&str> = Import.subcommands().iter().map(|s| s.0).collect();
    assert_eq!(subs, vec!["onetab", "html", "json"]);
    assert_eq!(Import.subcommands()[2].1, "parse firefox bookmark backup");
}

#[test]
fn json_bytes_import_reads_backup() {
    let text = r#"{"title": "root", "children": [
        {"title": "A", "uri": "https://a.org"},
        {"title": "folder", "children": [{"uri": "https://b.org"}]},
        {"title": "C", "uri": "https://c.org"}
    ]}"#;
    let bookmarks = import_json_bytes(text.as_bytes()).expect("a backup");
    let got: Vec<(&str, &str)> =
        bookmarks.iter().map(|b| (b.url.as_str(), b.description.as_str())).collect();
    assert_eq!(got, vec![("https://c.org", "C"), ("https://b.org", ""), ("https://a.org", "A")]);
}

#[test]
fn json_bytes_import_errors() {
    match import_json_bytes(b"{not json") {
        Err(e @ JsonImportError::Syntax(_)) => {
            assert!(e.message().starts_with("failure parsing json: "))
        }
        other => panic!("unexpected {other:?}"),
    }
    match import_json_bytes(b"[1, 2]") {
        Err(e @ JsonImportError::RootNotObject) => {
            assert_eq!(e.message(), "root of json file was not an object")
        }
        other => panic!("unexpected {other:?}"),
    }
}
