use kitsune_engine::dom::{NodeId, NodeType};
use kitsune_engine::html::{build_dom, ParseEvent, ParsedData};
use kitsune_engine::html::ParseEvent::Leave;

fn el(name: &str, attrs: &[(&str, &str)]) -> ParseEvent {
    ParseEvent::Enter(ParsedData::Element {
        name: name.to_string(),
        attrs: attrs.iter().map(|(a, b)| (a.to_string(), b.to_string())).collect(),
    })
}

fn text(t: &str) -> ParseEvent {
    ParseEvent::Enter(ParsedData::Text(t.to_string()))
}

#[test]
fn walk_builds_the_tree() {

    let events = vec![
        ParseEvent::Enter(ParsedData::Document),
        ParseEvent::Enter(ParsedData::Doctype),
        Leave,
        el("HTML", &[]),
        el("Body", &[("CLASS", "Main")]),
        text("  \n "),
        Leave,
        text("Hello"),
        Leave,
        ParseEvent::Enter(ParsedData::Comment("note".to_string())),
        Leave,
        ParseEvent::Enter(ParsedData::ProcessingInstruction),
        Leave,
        Leave,
        Leave,
        Leave,
    ];
    let t = build_dom(&events);
    // document, doctype comment, html, body, text, comment
    assert_eq!(t.node_count(), 6);
    assert!(matches!(t.root().unwrap().node_type, NodeType::Document));
    let body = t.find_element("body").unwrap();
    assert_eq!(body.get_attribute("class"), Some("Main"));
    assert_eq!(t.text_nodes(), vec!["Hello"]);
    match &t.get_node(NodeId(1)).unwrap().node_type {
        NodeType::Comment(c) => assert_eq!(c, "<!DOCTYPE html>"),
        _ => panic!("expected the doctype comment"),
    }
    assert_eq!(t.get_node(NodeId(0)).unwrap().children, vec![NodeId(1), NodeId(2)]);
    assert_eq!(t.get_node(NodeId(3)).unwrap().parent, Some(NodeId(2)));
}

#[test]
fn children_of_text_nodes_are_dropped() {

    let events = vec![
        ParseEvent::Enter(ParsedData::Document),
        text("x"),
        el("p", &[]),
        Leave,
        Leave,
        Leave,
    ];
    let t = build_dom(&events);
    assert_eq!(t.node_count(), 2);
    assert!(t.find_element("p").is_none());
}
