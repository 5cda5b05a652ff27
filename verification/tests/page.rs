use kitsune_engine::dom::DomTree;
use kitsune_engine::page::{
    extract_dns_prefetch, extract_images, extract_scripts, extract_stylesheets, extract_title, Script,
    Stylesheet,
};

fn sample() -> DomTree {
    let mut t = DomTree::new();
    let root = t.create_document();
    let head = t.create_element("head");
    let title = t.create_element("title");
    let blank = t.create_text("   ");
    let text = t.create_text("  My Page  ");
    t.append_child(root, head);
    t.append_child(head, title);
    t.append_child(title, blank);
    t.append_child(title, text);
    let s1 = t.create_element_with_attrs("script", vec![("src".to_string(), "app.js".to_string())]);
    let s2 = t.create_element("script");
    let code = t.create_text("let x = 1;");
    t.append_child(s2, code);
    let s3 = t.create_element("script");
    t.append_child(head, s1);
    t.append_child(head, s2);
    t.append_child(head, s3);
    let style = t.create_element("style");
    let css = t.create_text("p { color: red }");
    t.append_child(style, css);
    let link = t.create_element_with_attrs(
        "link",
        vec![("rel".to_string(), "stylesheet".to_string()), ("href".to_string(), "a.css".to_string())],
    );
    let pre = t.create_element_with_attrs(
        "link",
        vec![("rel".to_string(), "dns-prefetch".to_string()), ("href".to_string(), "//cdn.example".to_string())],
    );
    let pre2 = t.create_element_with_attrs(
        "link",
        vec![("rel".to_string(), "dns-prefetch".to_string()), ("href".to_string(), "https://img.example/x".to_string())],
    );
    let img = t.create_element_with_attrs("img", vec![("src".to_string(), "cat.png".to_string())]);
    let div = t.create_element_with_attrs("div", vec![("style".to_string(), "url('bg.png')".to_string())]);
    for n in [style, link, pre, pre2, img, div] {
        t.append_child(head, n);
    }
    t
}

#[test]
fn title_is_first_non_blank_text() {
    assert_eq!(extract_title(&sample()).as_deref(), Some("My Page"));
    let mut t = DomTree::new();
    let root = t.create_document();
    let title = t.create_element("title");
    t.append_child(root, title);
    assert_eq!(extract_title(&t), None);
}

#[test]
fn scripts_external_then_inline() {
    let s = extract_scripts(&sample());
    assert_eq!(s.len(), 2);
    assert!(matches!(&s[0], Script::External(u) if u == "app.js"));
    assert!(matches!(&s[1], Script::Inline(c) if c == "let x = 1;"));
}

#[test]
fn stylesheets_inline_and_linked() {
    let s = extract_stylesheets(&sample());
    assert_eq!(s.len(), 2);
    assert!(matches!(&s[0], Stylesheet::Inline(c) if c == "p { color: red }"));
    assert!(matches!(&s[1], Stylesheet::External(u) if u == "a.css"));
}

#[test]
fn images_and_prefetch_hosts() {
    let d = sample();
    assert_eq!(extract_images(&d), vec!["cat.png".to_string(), "bg.png".to_string()]);
    assert_eq!(extract_dns_prefetch(&d), vec!["cdn.example".to_string(), "img.example".to_string()]);
}
