use kitsune_engine::dom::{DomTree, ElementData, NodeId, NodeType};

#[test]
fn test_dom_tree_basic() {
    let mut tree = DomTree::new();
    let root = tree.create_document();
    let html = tree.create_element("html");
    let body = tree.create_element("body");
    let text = tree.create_text("Hello, KitsuneEngine!");

    tree.append_child(root, html);
    tree.append_child(html, body);
    tree.append_child(body, text);

    assert_eq!(tree.node_count(), 4);
    assert!(tree.root().is_some());
}

#[test]
fn test_sensitive_field_detection() {
    let mut elem = ElementData::new("input");
    elem.set_attribute("type", "password");
    assert!(elem.is_sensitive_field());

    let mut elem2 = ElementData::new("input");
    elem2.set_attribute("type", "text");
    assert!(!elem2.is_sensitive_field());

    let mut elem3 = ElementData::new("input");
    elem3.set_attribute("autocomplete", "cc-number");
    assert!(elem3.is_sensitive_field());
}

#[test]
fn test_email_field_detection() {
    let mut elem = ElementData::new("input");
    elem.set_attribute("type", "email");
    assert!(elem.is_email_field());

    let mut elem2 = ElementData::new("input");
    elem2.set_attribute("type", "text");
    assert!(!elem2.is_email_field());
}

#[test]
fn test_domain_pattern_exact() {
    let attrs = vec![("id".to_string(), "main-form".to_string())];
    let elem = ElementData::with_attributes("form", attrs);
    assert_eq!(elem.id(), Some("main-form"));
}

#[test]
fn test_classes_parsed() {
    let mut elem = ElementData::new("div");
    elem.set_attribute("class", "card primary active");
    let classes = elem.classes();
    assert!(classes.contains(&"card"));
    assert!(classes.contains(&"primary"));
    assert!(classes.contains(&"active"));
}

#[test]
fn test_find_element() {
    let mut tree = DomTree::new();
    let root = tree.create_document();
    let body = tree.create_element("body");
    let div = tree.create_element("div");
    tree.append_child(root, body);
    tree.append_child(body, div);

    assert!(tree.find_element("div").is_some());
    assert!(tree.find_element("span").is_none());
}

#[test]
fn test_find_all_elements() {
    let mut tree = DomTree::new();
    let root = tree.create_document();
    let body = tree.create_element("body");
    let p1 = tree.create_element("p");
    let p2 = tree.create_element("p");
    tree.append_child(root, body);
    tree.append_child(body, p1);
    tree.append_child(body, p2);

    assert_eq!(tree.find_all_elements("p").len(), 2);
}

#[test]
fn test_text_nodes_iterator() {
    let mut tree = DomTree::new();
    let root = tree.create_document();
    let body = tree.create_element("body");
    let t1 = tree.create_text("Hello");
    let t2 = tree.create_text("World");
    tree.append_child(root, body);
    tree.append_child(body, t1);
    tree.append_child(body, t2);

    let texts: Vec<_> = tree.text_nodes();
    assert_eq!(texts.len(), 2);
    assert!(texts.contains(&"Hello"));
    assert!(texts.contains(&"World"));
}

#[test]
fn test_find_password_fields() {
    let mut tree = DomTree::new();
    let root = tree.create_document();
    let form = tree.create_element("form");
    let pwd = {
        let attrs = vec![("type".to_string(), "password".to_string())];
        tree.create_element_with_attrs("input", attrs)
    };
    let text = {
        let attrs = vec![("type".to_string(), "text".to_string())];
        tree.create_element_with_attrs("input", attrs)
    };
    tree.append_child(root, form);
    tree.append_child(form, pwd);
    tree.append_child(form, text);

    let sensitive = tree.find_password_fields();
    assert_eq!(sensitive.len(), 1);
    assert_eq!(sensitive[0].get_attribute("type"), Some("password"));
}

#[test]
fn node_ids_index_the_arena() {
    let mut tree = DomTree::new();
    let a = tree.create_document();
    let b = tree.create_element("DIV");
    let c = tree.create_comment("note");
    assert_eq!(a, NodeId(0));
    assert_eq!(b, NodeId(1));
    assert_eq!(c, NodeId(2));
    for (i, n) in tree.nodes().iter().enumerate() {
        assert_eq!(n.id, NodeId(i as u64));
    }
    match &tree.get_node(b).unwrap().node_type {
        NodeType::Element(e) => assert_eq!(e.tag_name, "div"),
        _ => panic!("expected an element"),
    }
    assert!(tree.get_node(NodeId(3)).is_none());
}

#[test]
fn append_child_links_both_ways() {
    let mut tree = DomTree::new();
    let root = tree.create_document();
    let body = tree.create_element("body");
    tree.append_child(root, body);
    assert_eq!(tree.get_node(root).unwrap().children, vec![body]);
    assert_eq!(tree.get_node(body).unwrap().parent, Some(root));
    // An unknown parent still becomes the child's recorded parent.
    tree.append_child(NodeId(99), body);
    assert_eq!(tree.get_node(body).unwrap().parent, Some(NodeId(99)));
    assert_eq!(tree.get_node(root).unwrap().children, vec![body]);
}

#[test]
fn later_attribute_overrides_earlier() {
    let mut elem = ElementData::new("input");
    elem.set_attribute("type", "text");
    elem.set_attribute("type", "hidden");
    assert_eq!(elem.get_attribute("type"), Some("hidden"));
    assert!(elem.is_sensitive_field());
    assert!(elem.is_form_element());
    assert!(!ElementData::new("div").is_form_element());
    assert_eq!(ElementData::new("div").id(), None);
}

#[test]
fn email_autocomplete_and_classes_edge_cases() {
    let mut elem = ElementData::new("input");
    elem.set_attribute("autocomplete", "work email");
    assert!(elem.is_email_field());
    let mut div = ElementData::new("div");
    div.set_attribute("class", "  a \t b  ");
    assert_eq!(div.classes(), vec!["a", "b"]);
    assert!(ElementData::new("div").classes().is_empty());
}

#[test]
fn set_text_content_replaces_children() {
    let mut tree = DomTree::new();
    let root = tree.create_document();
    let p = tree.create_element("p");
    let old = tree.create_text("old");
    tree.append_child(root, p);
    tree.append_child(p, old);
    tree.set_text_content(p, "new");
    let kids = tree.get_node(p).unwrap().children.clone();
    assert_eq!(kids.len(), 1);
    match &tree.get_node(kids[0]).unwrap().node_type {
        NodeType::Text(t) => assert_eq!(t, "new"),
        _ => panic!("expected text"),
    }
    tree.set_inner_html(p, "<b>x</b>");
    let kids = tree.get_node(p).unwrap().children.clone();
    match &tree.get_node(kids[0]).unwrap().node_type {
        NodeType::Text(t) => assert_eq!(t, "<b>x</b>"),
        _ => panic!("expected text"),
    }
}

#[test]
fn get_element_by_id_returns_first_match() {
    let mut tree = DomTree::new();
    let root = tree.create_document();
    let a = tree.create_element_with_attrs("div", vec![("id".to_string(), "x".to_string())]);
    let b = tree.create_element_with_attrs("span", vec![("id".to_string(), "x".to_string())]);
    tree.append_child(root, a);
    tree.append_child(root, b);
    assert_eq!(tree.get_element_by_id("x"), Some(a));
    assert_eq!(tree.get_element_by_id("y"), None);
}

#[test]
fn find_element_lowercases_the_query() {
    let mut tree = DomTree::new();
    let root = tree.create_document();
    let d = tree.create_element("div");
    tree.append_child(root, d);
    assert!(tree.find_element("DIV").is_some());
    let text = tree.create_text("   ");
    tree.append_child(d, text);
    assert!(tree.text_nodes().is_empty());
}

#[test]
fn find_element_searches_breadth_first_from_the_root() {
    let mut t = DomTree::new();
    let r = t.create_document();
    let deep = t.create_element_with_attrs("p", vec![("id".to_string(), "deep".to_string())]);
    let d = t.create_element("div");
    let shallow = t.create_element_with_attrs("p", vec![("id".to_string(), "shallow".to_string())]);
    t.append_child(r, d);
    t.append_child(d, deep);
    t.append_child(r, shallow);
    assert_eq!(t.find_element("p").and_then(|e| e.id()), Some("shallow"));
    let loose = t.create_element("span");
    assert!(t.find_element("span").is_none());
    t.append_child(deep, loose);
    assert!(t.find_element("span").is_some());
}

#[test]
fn text_nodes_come_in_document_order() {
    let mut t = DomTree::new();
    let r = t.create_document();
    let b = t.create_element("body");
    let w = t.create_text("World");
    let h = t.create_text("Hello");
    let ws = t.create_text("   ");
    t.append_child(r, b);
    t.append_child(b, h);
    t.append_child(b, w);
    t.append_child(b, ws);
    assert_eq!(t.text_nodes(), vec!["Hello", "World"]);
}

#[test]
fn walks_visit_a_node_appended_twice_once() {
    let mut t = DomTree::new();
    let r = t.create_document();
    let p = t.create_element("p");
    let x = t.create_text("x");
    t.append_child(r, p);
    t.append_child(p, x);
    t.append_child(p, p);
    t.append_child(r, x);
    assert_eq!(t.text_nodes(), vec!["x"]);
    assert!(t.find_element("p").is_some());
}
