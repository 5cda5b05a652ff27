use kitsune_engine::dom::{DomTree, NodeType};
use kitsune_engine::script::{native_call, NativeCall, NativeReply};

fn page() -> (DomTree, kitsune_engine::dom::NodeId) {
    let mut t = DomTree::new();
    let root = t.create_document();
    let div = t.create_element_with_attrs("div", vec![("id".to_string(), "box".to_string())]);
    t.append_child(root, div);
    (t, div)
}

#[test]
fn get_element_by_id_reports_presence() {
    let (mut t, _) = page();
    assert_eq!(native_call(&mut t, NativeCall::GetElementById("box".to_string())), NativeReply::True);
    assert_eq!(native_call(&mut t, NativeCall::GetElementById("nope".to_string())), NativeReply::Null);
    assert_eq!(native_call(&mut t, NativeCall::Timer), NativeReply::Zero);
    assert_eq!(native_call(&mut t, NativeCall::Log("hi".to_string())), NativeReply::Undefined);
}

#[test]
fn host_calls_edit_the_element() {
    let (mut t, div) = page();
    native_call(&mut t, NativeCall::SetAttribute {
        id: "box".to_string(),
        k: "class".to_string(),
        v: "wide".to_string(),
    });
    match &t.get_node(div).unwrap().node_type {
        NodeType::Element(e) => assert_eq!(e.get_attribute("class"), Some("wide")),
        _ => panic!("expected an element"),
    }
    native_call(&mut t, NativeCall::SetTextContent { id: "box".to_string(), text: "hello".to_string() });
    assert_eq!(t.text_nodes(), vec!["hello"]);
    native_call(&mut t, NativeCall::SetInnerHtml { id: "box".to_string(), html: "<i>x</i>".to_string() });
    let kids = t.get_node(div).unwrap().children.clone();
    assert_eq!(kids.len(), 1);
    let before = t.node_count();
    native_call(&mut t, NativeCall::SetTextContent { id: "missing".to_string(), text: "x".to_string() });
    assert_eq!(t.node_count(), before);
}
