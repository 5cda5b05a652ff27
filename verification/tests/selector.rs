use kitsune_engine::dom::DomTree;
use kitsune_engine::selector::{
    eq_ignore_ascii_case, ident_matches, is_descendant, parse_non_ts_pseudo_class, CaseSensitivity,
    DomElement, PseudoClass, PseudoClassState,
};

fn tree() -> (DomTree, [kitsune_engine::dom::NodeId; 6]) {
    let mut t = DomTree::new();
    let root = t.create_document();
    let html = t.create_element("html");
    let body = t.create_element("body");
    let a = t.create_element_with_attrs(
        "a",
        vec![("href".to_string(), "/x".to_string()), ("class".to_string(), "nav Main".to_string())],
    );
    let text = t.create_text("link");
    let p = t.create_element_with_attrs("p", vec![("id".to_string(), "Intro".to_string())]);
    t.append_child(root, html);
    t.append_child(html, body);
    t.append_child(body, a);
    t.append_child(a, text);
    t.append_child(body, p);
    (t, [root, html, body, a, text, p])
}

#[test]
fn navigation_between_elements() {
    let (t, [root, html, body, a, _text, p]) = tree();
    let ea = DomElement { tree: &t, id: a };
    assert_eq!(ea.parent_element().map(|e| e.id), Some(body));
    assert_eq!(ea.next_sibling_element().map(|e| e.id), Some(p));
    assert!(ea.prev_sibling_element().is_none());
    let eb = DomElement { tree: &t, id: body };
    assert_eq!(eb.first_element_child().map(|e| e.id), Some(a));
    let eh = DomElement { tree: &t, id: html };
    assert!(eh.is_root());
    assert!(eh.parent_element().is_none());
    assert!(is_descendant(&t, a, html));
    assert!(!is_descendant(&t, html, a));
    let _ = root;
}

#[test]
fn identity_tests() {
    let (t, [_, _, body, a, _, p]) = tree();
    let ea = DomElement { tree: &t, id: a };
    assert!(ea.is_link());
    assert!(ea.has_local_name("a"));
    assert!(ea.has_class("Main", CaseSensitivity::CaseSensitive));
    assert!(!ea.has_class("main", CaseSensitivity::CaseSensitive));
    assert!(ea.has_class("main", CaseSensitivity::AsciiCaseInsensitive));
    assert_eq!(ea.attr_value("href"), Some("/x"));
    assert!(!ea.is_empty());
    let ep = DomElement { tree: &t, id: p };
    assert!(ep.has_id("intro", CaseSensitivity::AsciiCaseInsensitive));
    assert!(!ep.has_id("intro", CaseSensitivity::CaseSensitive));
    assert!(ep.is_empty());
    assert!(!ep.is_same_type(&ea));
    let state = PseudoClassState { hovered: Some(p), focused: None, active: Some(body) };
    assert!(ep.match_non_ts_pseudo_class(PseudoClass::Hover, &state));
    assert!(!ep.match_non_ts_pseudo_class(PseudoClass::Focus, &state));
    assert!(!ep.match_non_ts_pseudo_class(PseudoClass::Any, &state));
    assert_eq!(parse_non_ts_pseudo_class("hover"), PseudoClass::Hover);
    assert_eq!(parse_non_ts_pseudo_class("visited"), PseudoClass::Any);
    assert!(eq_ignore_ascii_case("DiV", "div"));
    assert!(!ident_matches("DiV", "div", CaseSensitivity::CaseSensitive));
}
