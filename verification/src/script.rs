//! The script engine's host side: the errors scripts raise and what the
//! engine does to the document when a script calls back into it. The
//! JavaScript itself runs in the engine, outside the library; it hands
//! each callback here as a `NativeCall`.
use vstd::prelude::*;
use crate::dom::{attr_get, has_id_attr, node_at, replaced_by_text, DomNode, DomTree, NodeId, NodeType};

verus! {

/// Errors of the script engine.
#[derive(Debug)]
pub enum JsError {
    ExecutionError(String),
    ParseError { line: u32, message: String },
    InitializationError(String),
    SecurityViolation { operation: String },
    Timeout { timeout_ms: u64 },
}

/// A script's call into the host, with its arguments decoded.
#[derive(Debug, Clone)]
pub enum NativeCall {
    /// `console.log` and the like.
    Log(String),
    Warn(String),
    Error(String),
    /// `document.getElementById`.
    GetElementById(String),
    /// `element.setAttribute(k, v)` on the element with id `id`.
    SetAttribute { id: String, k: String, v: String },
    /// `element.textContent = text`.
    SetTextContent { id: String, text: String },
    /// `element.innerHTML = html` (already stripped of scripts).
    SetInnerHtml { id: String, html: String },
    /// `setTimeout` / `setInterval`.
    Timer,
    /// Any other operation, or arguments that did not decode.
    Other,
}

/// What a host call returns to the script.
#[derive(Debug, Clone, Copy, PartialEq, Eq, Structural)]
pub enum NativeReply {
    /// `undefined`.
    Undefined,
    /// `null`.
    Null,
    /// The string `"true"`.
    True,
    /// The integer 0.
    Zero,
}

/// The first node whose `id` attribute is `id`, by index.
pub open spec fn first_with_id(nodes: Seq<DomNode>, id: Seq<char>, i: int) -> bool {
    0 <= i < nodes.len() && has_id_attr(nodes[i], id) && forall|j: int|
        0 <= j < i ==> !has_id_attr(#[trigger] nodes[j], id)
}

/// Whether some node has `id`.
pub open spec fn some_with_id(nodes: Seq<DomNode>, id: Seq<char>) -> bool {
    exists|i: int| 0 <= i < nodes.len() && #[trigger] has_id_attr(nodes[i], id)
}

/// `new` is the element `old` with attribute `k` set to `v`.
pub open spec fn attr_set(old: DomNode, new: DomNode, k: Seq<char>, v: Seq<char>) -> bool {
    &&& new.id == old.id
    &&& new.children == old.children
    &&& new.parent == old.parent
    &&& match (old.node_type, new.node_type) {
        (NodeType::Element(a), NodeType::Element(b)) => {
            &&& b.tag_name == a.tag_name
            &&& forall|q: Seq<char>|
                attr_get(#[trigger] b.attributes@, q) == if q == k {
                    Some(v)
                } else {
                    attr_get(a.attributes@, q)
                }
        },
        _ => false,
    }
}

/// Carry out a script's call into the host on the document.
pub fn native_call(dom: &mut DomTree, call: NativeCall) -> (r: NativeReply)
    requires
        old(dom).wf(),
        old(dom).next_id_spec() < u64::MAX,
    ensures
        final(dom).wf(),
        final(dom).root_spec() == old(dom).root_spec(),
        match call {
            NativeCall::GetElementById(id) => final(dom)@ == old(dom)@ && r == if some_with_id(
                old(dom)@,
                id@,
            ) {
                NativeReply::True
            } else {
                NativeReply::Null
            },
            NativeCall::SetAttribute { id, k, v } => r == NativeReply::Undefined && if some_with_id(
                old(dom)@,
                id@,
            ) {
                exists|i: int|
                    #![trigger old(dom)@[i]]
                    first_with_id(old(dom)@, id@, i) && final(dom)@ == old(dom)@.update(
                        i,
                        final(dom)@[i],
                    ) && attr_set(old(dom)@[i], final(dom)@[i], k@, v@)
            } else {
                final(dom)@ == old(dom)@
            },
            NativeCall::SetTextContent { id, text } => r == NativeReply::Undefined && if some_with_id(
                old(dom)@,
                id@,
            ) {
                exists|i: int|
                    #![trigger old(dom)@[i]]
                    first_with_id(old(dom)@, id@, i) && replaced_by_text(
                        old(dom)@,
                        final(dom)@,
                        NodeId(i as u64),
                        NodeId(old(dom).next_id_spec()),
                        text@,
                    )
            } else {
                final(dom)@ == old(dom)@
            },
            NativeCall::SetInnerHtml { id, html } => r == NativeReply::Undefined && if some_with_id(
                old(dom)@,
                id@,
            ) {
                exists|i: int|
                    #![trigger old(dom)@[i]]
                    first_with_id(old(dom)@, id@, i) && replaced_by_text(
                        old(dom)@,
                        final(dom)@,
                        NodeId(i as u64),
                        NodeId(old(dom).next_id_spec()),
                        html@,
                    )
            } else {
                final(dom)@ == old(dom)@
            },
            NativeCall::Timer => r == NativeReply::Zero && final(dom)@ == old(dom)@,
            _ => r == NativeReply::Undefined && final(dom)@ == old(dom)@,
        },
{
    match call {
        NativeCall::GetElementById(id) => {
            match dom.get_element_by_id(id.as_str()) {
                Some(_) => NativeReply::True,
                None => NativeReply::Null,
            }
        },
        NativeCall::SetAttribute { id, k, v } => {
            match dom.get_element_by_id(id.as_str()) {
                Some(node_id) => {
                    let ghost n0 = dom@;
                    let ghost i = node_id.0 as int;
                    assert(n0[i].id == node_id);
                    assert(first_with_id(n0, id@, i));
                    match dom.get_node_mut(node_id) {
                        Some(node) => {
                            match node.as_element_mut() {
                                Some(element) => {
                                    element.set_attribute(k.as_str(), v.as_str());
                                },
                                None => {},
                            }
                        },
                        None => {},
                    }
                    assert(dom@ =~= n0.update(i, dom@[i]));
                    assert(attr_set(n0[i], dom@[i], k@, v@));
                },
                None => {},
            }
            NativeReply::Undefined
        },
        NativeCall::SetTextContent { id, text } => {
            match dom.get_element_by_id(id.as_str()) {
                Some(node_id) => {
                    let ghost n0 = dom@;
                    assert(n0[node_id.0 as int].id == node_id);
                    assert(first_with_id(n0, id@, node_id.0 as int));
                    dom.set_text_content(node_id, text.as_str());
                },
                None => {},
            }
            NativeReply::Undefined
        },
        NativeCall::SetInnerHtml { id, html } => {
            match dom.get_element_by_id(id.as_str()) {
                Some(node_id) => {
                    let ghost n0 = dom@;
                    assert(n0[node_id.0 as int].id == node_id);
                    assert(first_with_id(n0, id@, node_id.0 as int));
                    dom.set_inner_html(node_id, html.as_str());
                },
                None => {},
            }
            NativeReply::Undefined
        },
        NativeCall::Timer => NativeReply::Zero,
        _ => NativeReply::Undefined,
    }
}

} // verus!
