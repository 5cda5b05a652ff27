use kitsune_engine::dom::DomTree;
use kitsune_engine::page::{PipelineError, Script, Stylesheet};
use kitsune_engine::page_load::{asset_urls, author_sheets, page_text, page_title, runs_scripts, script_bodies};

const BASE: &str = "https://example.com/dir/page.html";

fn sheets() -> Vec<Stylesheet> {
    vec![
        Stylesheet::Inline("a { color: red }".to_string()),
        Stylesheet::External("style.css".to_string()),
        Stylesheet::External("missing.css".to_string()),
    ]
}

fn scripts() -> Vec<Script> {
    vec![Script::External("/app.js".to_string()), Script::Inline("let x = 1;".to_string())]
}

#[test]
fn asset_urls_join_in_fetch_order() {
    let images = vec!["img.png".to_string(), "https://cdn.example.org/i.png".to_string()];
    let urls = asset_urls(BASE, &sheets(), &scripts(), &images);
    assert_eq!(
        urls,
        vec![
            "https://example.com/dir/style.css".to_string(),
            "https://example.com/dir/missing.css".to_string(),
            "https://example.com/app.js".to_string(),
            "https://example.com/dir/img.png".to_string(),
            "https://cdn.example.org/i.png".to_string(),
        ]
    );
}

#[test]
fn asset_urls_skip_unjoinable() {
    let images = vec!["img.png".to_string()];
    assert!(asset_urls("not a url", &sheets(), &scripts(), &images).is_empty());
}

#[test]
fn author_sheets_take_fetched_bodies_last_one_wins() {
    let res = vec![
        ("https://example.com/dir/style.css".to_string(), b"p { margin: 0 }".to_vec()),
        ("https://example.com/dir/style.css".to_string(), b"p { margin: 1px }".to_vec()),
    ];
    let got = author_sheets(BASE, &sheets(), &res);
    assert_eq!(got, vec!["a { color: red }".to_string(), "p { margin: 1px }".to_string()]);
}

#[test]
fn script_bodies_skip_unfetched() {
    let none: Vec<(String, Vec<u8>)> = Vec::new();
    assert_eq!(script_bodies(BASE, &scripts(), &none), vec!["let x = 1;".to_string()]);
    let res = vec![("https://example.com/app.js".to_string(), b"go();".to_vec())];
    assert_eq!(script_bodies(BASE, &scripts(), &res), vec!["go();".to_string(), "let x = 1;".to_string()]);
}

#[test]
fn scripts_run_only_on_parsed_web_pages() {
    let bodies = vec!["go();".to_string()];
    assert!(runs_scripts(&bodies, false, false));
    assert!(!runs_scripts(&bodies, true, false));
    assert!(!runs_scripts(&bodies, false, true));
    assert!(!runs_scripts(&Vec::new(), false, false));
}

#[test]
fn page_title_falls_back_to_address() {
    let mut t = DomTree::new();
    let root = t.create_document();
    let body = t.create_element("body");
    t.append_child(root, body);
    assert_eq!(page_title(&t, "https://example.com/"), "https://example.com/");
    let title = t.create_element("title");
    let text = t.create_text(" Hello ");
    t.append_child(root, title);
    t.append_child(title, text);
    assert_eq!(page_title(&t, "https://example.com/"), "Hello");
}

#[test]
fn page_text_refuses_empty_body_and_decodes_lossily() {
    match page_text(&Vec::new()) {
        Err(PipelineError::Network(m)) => assert_eq!(m, "Empty response body"),
        _ => panic!("empty body accepted"),
    }
    match page_text(&vec![b'h', b'i', 0xff]) {
        Ok(t) => assert_eq!(t, "hi\u{fffd}"),
        Err(_) => panic!("body refused"),
    }
}
