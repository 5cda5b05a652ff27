//! Parsing HTML into the document tree. The HTML5 parser (html5ever) hands
//! over its tree as a walk: entering each node, its subtree, then leaving
//! it; what that walk is for a given text is named by `html5_events`. This
//! module decides what becomes of each node: whitespace-only text and processing
//! instructions are dropped, the doctype becomes a comment, tag and
//! attribute names are lowercased, and only elements and documents have
//! their children kept.
use vstd::prelude::*;
use html5ever::tendril::TendrilSink;
use html5ever::{parse_document, ParseOpts};
use markup5ever_rcdom::RcDom;
use crate::dom::{DomNode, DomTree, NodeId, NodeType, appended, keep_last};
use crate::selector::{ascii_lower, ascii_lower_char};
use crate::text::{all_ws, chars_of, is_blank, lowercase, string_of, to_lower, to_owned_string};

verus! {

/// Errors of the HTML layer.
#[derive(Debug)]
pub enum HtmlError {
    ParseError(String),
    InvalidHtml(String),
    DomError(String),
}

/// Result of an HTML operation.
pub type HtmlResult<T> = Result<T, HtmlError>;

/// A node of the parser's tree.
#[derive(Debug, Clone)]
pub enum ParsedData {
    Document,
    Doctype,
    Text(String),
    Comment(String),
    Element { name: String, attrs: Vec<(String, String)> },
    ProcessingInstruction,
}

/// One step of the walk over the parser's tree.
#[derive(Debug, Clone)]
pub enum ParseEvent {
    /// Entering a node; its subtree follows, then the matching `Leave`.
    Enter(ParsedData),
    /// Leaving the node entered last.
    Leave,
}

/// A parser node by its text.
pub enum DataView {
    Document,
    Doctype,
    Text(Seq<char>),
    Comment(Seq<char>),
    Element(Seq<char>, Seq<(Seq<char>, Seq<char>)>),
    Pi,
}

/// A walk step by its text.
pub enum EventView {
    Enter(DataView),
    Leave,
}

/// Attribute pairs by their text.
pub open spec fn attrs_view(a: Seq<(String, String)>) -> Seq<(Seq<char>, Seq<char>)> {
    crate::dom::pair_views(a)
}

impl View for ParseEvent {
    type V = EventView;

    open spec fn view(&self) -> EventView {
        match self {
            ParseEvent::Enter(d) => EventView::Enter(
                match d {
                    ParsedData::Document => DataView::Document,
                    ParsedData::Doctype => DataView::Doctype,
                    ParsedData::Text(t) => DataView::Text(t@),
                    ParsedData::Comment(c) => DataView::Comment(c@),
                    ParsedData::Element { name, attrs } => DataView::Element(name@, attrs_view(attrs@)),
                    ParsedData::ProcessingInstruction => DataView::Pi,
                },
            ),
            ParseEvent::Leave => EventView::Leave,
        }
    }
}

/// A document node by its text (its id is its index).
pub enum KindView {
    Document,
    Element(Seq<char>, Seq<(Seq<char>, Seq<char>)>),
    Text(Seq<char>),
    Comment(Seq<char>),
}

/// A node of the built tree by its text.
pub struct NodeView {
    pub kind: KindView,
    pub children: Seq<NodeId>,
    pub parent: Option<NodeId>,
}

/// The text view of a document node.
pub open spec fn node_view(n: DomNode) -> NodeView {
    NodeView {
        kind: match n.node_type {
            NodeType::Document => KindView::Document,
            NodeType::Element(e) => KindView::Element(e.tag_name@, attrs_view(e.attributes@)),
            NodeType::Text(t) => KindView::Text(t@),
            NodeType::Comment(c) => KindView::Comment(c@),
        },
        children: n.children@,
        parent: n.parent,
    }
}

/// The text views of a node list.
pub open spec fn tree_view(s: Seq<DomNode>) -> Seq<NodeView> {
    s.map_values(|n: DomNode| node_view(n))
}

/// ASCII lowercase of a string.
pub open spec fn ascii_lower_str(s: Seq<char>) -> Seq<char> {
    s.map_values(|c: char| ascii_lower(c))
}

/// The attributes an element is created with: names lowercased.
pub open spec fn lowered_attrs(a: Seq<(Seq<char>, Seq<char>)>) -> Seq<(Seq<char>, Seq<char>)> {
    a.map_values(|p: (Seq<char>, Seq<char>)| (lowercase(p.0), p.1))
}

/// `nodes` with a new node of `kind` appended as the last child of `p`.
pub open spec fn add_child(nodes: Seq<NodeView>, p: int, kind: KindView) -> Seq<NodeView> {
    let c = nodes.len();
    let n1 = nodes.push(NodeView { kind, children: Seq::empty(), parent: Some(NodeId(p as u64)) });
    n1.update(p, NodeView { children: n1[p].children.push(NodeId(c as u64)), ..n1[p] })
}

/// The state of the build: the nodes so far, and for each entered node not
/// yet left, where its children go (`None`: they are dropped).
pub struct BuildState {
    pub nodes: Seq<NodeView>,
    pub stack: Seq<Option<int>>,
}

/// The start: the document node, whose children go under it.
pub open spec fn build_start() -> BuildState {
    BuildState {
        nodes: seq![NodeView { kind: KindView::Document, children: Seq::empty(), parent: None }],
        stack: seq![Some(0int)],
    }
}

/// One step of the build.
pub open spec fn build_step(st: BuildState, e: EventView) -> BuildState {
    match e {
        EventView::Leave => BuildState {
            nodes: st.nodes,
            stack: if st.stack.len() > 0 {
                st.stack.drop_last()
            } else {
                st.stack
            },
        },
        EventView::Enter(d) => {
            let top = if st.stack.len() > 0 {
                st.stack.last()
            } else {
                None
            };
            match top {
                None => BuildState { nodes: st.nodes, stack: st.stack.push(None) },
                Some(p) => match d {
                    DataView::Document => BuildState { nodes: st.nodes, stack: st.stack.push(Some(p)) },
                    DataView::Doctype => BuildState {
                        nodes: add_child(st.nodes, p, KindView::Comment("<!DOCTYPE html>"@)),
                        stack: st.stack.push(None),
                    },
                    DataView::Text(t) => if all_ws(t) {
                        BuildState { nodes: st.nodes, stack: st.stack.push(None) }
                    } else {
                        BuildState { nodes: add_child(st.nodes, p, KindView::Text(t)), stack: st.stack.push(None) }
                    },
                    DataView::Comment(c) => BuildState {
                        nodes: add_child(st.nodes, p, KindView::Comment(c)),
                        stack: st.stack.push(None),
                    },
                    DataView::Element(name, attrs) => BuildState {
                        nodes: add_child(
                            st.nodes,
                            p,
                            KindView::Element(lowercase(ascii_lower_str(name)), keep_last(lowered_attrs(attrs))),
                        ),
                        stack: st.stack.push(Some(st.nodes.len() as int)),
                    },
                    DataView::Pi => BuildState { nodes: st.nodes, stack: st.stack.push(None) },
                },
            }
        },
    }
}

/// The state after a walk.
pub open spec fn build_run(events: Seq<EventView>) -> BuildState
    decreases events.len(),
{
    if events.len() == 0 {
        build_start()
    } else {
        build_step(build_run(events.drop_last()), events.last())
    }
}

/// Appending a freshly created node (of `kind`, with no children) as the
/// last child of `p` builds the views `add_child` describes.
proof fn lemma_append_new(old: Seq<DomNode>, mid: Seq<DomNode>, new: Seq<DomNode>, p: int, kind: KindView)
    requires
        forall|i: int| 0 <= i < old.len() ==> (#[trigger] old[i]).id.0 == i,
        0 <= p < old.len(),
        old.len() < u64::MAX,
        mid.len() == old.len() + 1,
        mid.drop_last() == old,
        mid.last().id == NodeId(old.len() as u64),
        node_view(mid.last()).kind == kind,
        mid.last().children@.len() == 0,
        mid.last().parent is None,
        appended(mid, new, NodeId(p as u64), NodeId(old.len() as u64)),
    ensures
        tree_view(new) == add_child(tree_view(old), p, kind),
        forall|i: int| 0 <= i < new.len() ==> (#[trigger] new[i]).id.0 == i,
{
    let c = old.len() as int;
    let a = add_child(tree_view(old), p, kind);
    assert(mid[p] == old[p]);
    assert(mid[c] == mid.last());
    assert(mid.last().children@ =~= Seq::<NodeId>::empty());
    assert(crate::dom::node_at(mid, NodeId(c as u64)) is Some);
    assert(crate::dom::node_at(mid, NodeId(p as u64)) is Some);
    assert forall|i: int| 0 <= i < new.len() implies (#[trigger] tree_view(new)[i]) == a[i] by {
        if i < c {
            assert(mid[i] == old[i]);
        }
    }
    assert(tree_view(new) =~= a);
    assert forall|i: int| 0 <= i < new.len() implies (#[trigger] new[i]).id.0 == i by {
        if i < c {
            assert(mid[i] == old[i]);
        }
    }
}

/// ASCII lowercase of a string.
fn ascii_lowercase(s: &str) -> (r: String)
    ensures
        r@ == ascii_lower_str(s@),
{
    let v = chars_of(s);
    let mut out: Vec<char> = Vec::new();
    let mut i: usize = 0;
    while i < v.len()
        invariant
            v@ == s@,
            i <= v@.len(),
            out@ == ascii_lower_str(v@.take(i as int)),
        decreases v@.len() - i,
    {
        out.push(ascii_lower_char(v[i]));
        i += 1;
        assert(out@ =~= ascii_lower_str(v@.take(i as int)));
    }
    assert(v@.take(v@.len() as int) =~= v@);
    string_of(out.as_slice())
}

/// The attributes with their names lowercased.
fn lower_attr_names(attrs: &Vec<(String, String)>) -> (r: Vec<(String, String)>)
    ensures
        attrs_view(r@) == lowered_attrs(attrs_view(attrs@)),
{
    let ghost a = attrs_view(attrs@);
    let mut out: Vec<(String, String)> = Vec::new();
    let mut i: usize = 0;
    while i < attrs.len()
        invariant
            a == attrs_view(attrs@),
            i <= attrs@.len(),
            attrs_view(out@) == lowered_attrs(a.take(i as int)),
        decreases attrs@.len() - i,
    {
        let ghost before = out@;
        out.push((to_lower(attrs[i].0.as_str()), to_owned_string(attrs[i].1.as_str())));
        assert(attrs_view(out@) =~= attrs_view(before).push((lowercase(a[i as int].0), a[i as int].1)));
        assert(lowered_attrs(a.take(i + 1)) =~= lowered_attrs(a.take(i as int)).push(
            (lowercase(a[i as int].0), a[i as int].1),
        ));
        i += 1;
    }
    assert(a.take(attrs@.len() as int) =~= a);
    out
}

/// A build stack by its integer targets.
pub open spec fn stack_view(s: Seq<Option<NodeId>>) -> Seq<Option<int>> {
    s.map_values(|o: Option<NodeId>| match o {
        Some(n) => Some(n.0 as int),
        None => None,
    })
}

/// Build the document tree from the parser's walk (see `build_step`).
pub fn build_dom(events: &Vec<ParseEvent>) -> (t: DomTree)
    requires
        events@.len() < 0xFFFF_FFFF_FFFF_FFF0,
    ensures
        t.wf(),
        t.root_spec() == Some(NodeId(0)),
        tree_view(t@) == build_run(events@.map_values(|e: ParseEvent| e@)).nodes,
{
    let ghost ev = events@.map_values(|e: ParseEvent| e@);
    let mut tree = DomTree::new();
    let root = tree.create_document();
    let mut stack: Vec<Option<NodeId>> = Vec::new();
    stack.push(Some(root));
    proof {
        assert(tree@[0].children@ =~= Seq::<NodeId>::empty());
        assert(tree_view(tree@) =~= build_start().nodes);
        assert(stack_view(stack@) =~= build_start().stack);
        assert(ev.take(0) =~= Seq::<EventView>::empty());
    }
    let mut i: usize = 0;
    while i < events.len()
        invariant
            ev == events@.map_values(|e: ParseEvent| e@),
            events@.len() < 0xFFFF_FFFF_FFFF_FFF0,
            i <= events@.len(),
            tree.wf(),
            tree.root_spec() == Some(NodeId(0)),
            tree@.len() <= i + 1,
            tree_view(tree@) == build_run(ev.take(i as int)).nodes,
            stack_view(stack@) == build_run(ev.take(i as int)).stack,
            forall|k: int| 0 <= k < stack@.len() ==> (#[trigger] stack@[k] matches Some(n) ==> n.0 < tree@.len()),
        decreases events@.len() - i,
    {
        let ghost st = build_run(ev.take(i as int));
        let ghost t0 = tree@;
        assert(ev.take(i + 1).drop_last() =~= ev.take(i as int));
        assert(ev.take(i + 1).last() == events@[i as int]@);
        let top: Option<NodeId> = if stack.len() > 0 {
            stack[stack.len() - 1]
        } else {
            None
        };
        match &events[i] {
            ParseEvent::Leave => {
                if stack.len() > 0 {
                    stack.pop();
                    assert(stack_view(stack@) =~= st.stack.drop_last());
                }
            },
            ParseEvent::Enter(d) => {
                match top {
                    None => {
                        stack.push(None);
                        assert(stack_view(stack@) =~= st.stack.push(None));
                    },
                    Some(p) => {
                        assert(stack_view(stack@).last() == Some(p.0 as int));
                        match d {
                            ParsedData::Document => {
                                stack.push(Some(p));
                                assert(stack_view(stack@) =~= st.stack.push(Some(p.0 as int)));
                            },
                            ParsedData::Doctype => {
                                let c = tree.create_comment("<!DOCTYPE html>");
                                let ghost t1 = tree@;
                                tree.append_child(p, c);
                                proof {
                                    lemma_append_new(t0, t1, tree@, p.0 as int, KindView::Comment("<!DOCTYPE html>"@));
                                }
                                stack.push(None);
                                assert(stack_view(stack@) =~= st.stack.push(None));
                            },
                            ParsedData::Text(text) => {
                                if is_blank(text.as_str()) {
                                    stack.push(None);
                                    assert(stack_view(stack@) =~= st.stack.push(None));
                                } else {
                                    let c = tree.create_text(text.as_str());
                                    let ghost t1 = tree@;
                                    tree.append_child(p, c);
                                    proof {
                                        lemma_append_new(t0, t1, tree@, p.0 as int, KindView::Text(text@));
                                    }
                                    stack.push(None);
                                    assert(stack_view(stack@) =~= st.stack.push(None));
                                }
                            },
                            ParsedData::Comment(text) => {
                                let c = tree.create_comment(text.as_str());
                                let ghost t1 = tree@;
                                tree.append_child(p, c);
                                proof {
                                    lemma_append_new(t0, t1, tree@, p.0 as int, KindView::Comment(text@));
                                }
                                stack.push(None);
                                assert(stack_view(stack@) =~= st.stack.push(None));
                            },
                            ParsedData::Element { name, attrs } => {
                                let tag = ascii_lowercase(name.as_str());
                                let lowered = lower_attr_names(attrs);
                                let c = tree.create_element_with_attrs(tag.as_str(), lowered);
                                let ghost t1 = tree@;
                                tree.append_child(p, c);
                                proof {
                                    lemma_append_new(
                                        t0,
                                        t1,
                                        tree@,
                                        p.0 as int,
                                        KindView::Element(
                                            lowercase(ascii_lower_str(name@)),
                                            keep_last(lowered_attrs(attrs_view(attrs@))),
                                        ),
                                    );
                                }
                                stack.push(Some(c));
                                assert(stack_view(stack@) =~= st.stack.push(Some(t0.len() as int)));
                            },
                            ParsedData::ProcessingInstruction => {
                                stack.push(None);
                                assert(stack_view(stack@) =~= st.stack.push(None));
                            },
                        }
                    },
                }
            },
        }
        i += 1;
    }
    assert(ev.take(events@.len() as int) =~= ev);
    tree
}

/// The walk html5ever's tree for `html` gives: each node below the
/// document entered, its children walked in order, then left.
pub uninterp spec fn html5_events(html: Seq<char>) -> Seq<EventView>;

#[verifier::external_type_specification]
#[verifier::external_body]
pub struct ExNodeData(markup5ever_rcdom::NodeData);

/// One html5ever node's data as plain data (one arm per variant, moving
/// the texts and names out). Nothing is claimed of it by itself; the walk
/// it is part of is named by `html5_events`.
#[verifier::external_body]
fn parsed_data(data: &markup5ever_rcdom::NodeData) -> ParsedData {
    match data {
        markup5ever_rcdom::NodeData::Document => ParsedData::Document,
        markup5ever_rcdom::NodeData::Doctype { .. } => ParsedData::Doctype,
        markup5ever_rcdom::NodeData::Text { contents } => ParsedData::Text(contents.borrow().to_string()),
        markup5ever_rcdom::NodeData::Comment { contents } => ParsedData::Comment(contents.to_string()),
        markup5ever_rcdom::NodeData::Element { name, attrs, .. } => ParsedData::Element {
            name: name.local.to_string(),
            attrs: attrs.borrow().iter().map(|a| (a.name.local.to_string(), a.value.to_string())).collect(),
        },
        markup5ever_rcdom::NodeData::ProcessingInstruction { .. } => ParsedData::ProcessingInstruction,
    }
}

/// `html5ever::parse_document` over the text of `html`, read out as its
/// pre-order walk. Claimed: it succeeds (the only error `read_from` passes
/// on is the reader's, and reading an in-memory byte slice never fails;
/// the UTF-8 decoding is lossy and the parser repairs any input), and the
/// walk is `html5_events(html)`.
#[verifier::external_body]
fn html5_parse_events(html: &str) -> (r: Result<Vec<ParseEvent>, String>)
    ensures
        r is Ok,
        r matches Ok(v) ==> v@.map_values(|e: ParseEvent| e@) == html5_events(html@),
{
    let dom = parse_document(RcDom::default(), ParseOpts::default())
        .from_utf8().read_from(&mut html.as_bytes()).map_err(|e| e.to_string())?;
    let mut events = Vec::new();
    let mut stack: Vec<_> = dom.document.children.take().into_iter().rev().map(Some).collect();
    while let Some(item) = stack.pop() {
        match item {
            None => events.push(ParseEvent::Leave),
            Some(node) => {
                events.push(ParseEvent::Enter(parsed_data(&node.data)));
                stack.push(None);
                stack.extend(node.children.take().into_iter().rev().map(Some));
            },
        }
    }
    Ok(events)
}

/// Parse an HTML document into the engine's DOM; malformed input is
/// repaired the way HTML5 prescribes. The tree is what `build_dom` makes of
/// html5ever's walk of the text; only a walk too long to number its nodes
/// fails, with a `DomError`.
pub fn parse_html(html: &str) -> (r: HtmlResult<DomTree>)
    ensures
        match r {
            Ok(t) => {
                &&& t.wf()
                &&& t.root_spec() == Some(NodeId(0))
                &&& tree_view(t@) == build_run(html5_events(html@)).nodes
                &&& html5_events(html@).len() < 0xFFFF_FFFF_FFFF_FFF0
            },
            Err(HtmlError::DomError(m)) => m@ == "document too large"@ && html5_events(html@).len()
                >= 0xFFFF_FFFF_FFFF_FFF0,
            Err(HtmlError::ParseError(_)) => false,
            Err(HtmlError::InvalidHtml(_)) => false,
        },
        (r is Ok) == (html5_events(html@).len() < 0xFFFF_FFFF_FFFF_FFF0),
{
    let events = match html5_parse_events(html) {
        Ok(v) => v,
        Err(m) => {
            return Err(HtmlError::ParseError(m));
        },
    };
    if events.len() as u64 >= 0xFFFF_FFFF_FFFF_FFF0u64 {
        return Err(HtmlError::DomError(to_owned_string("document too large")));
    }
    let t = build_dom(&events);
    Ok(t)
}

} // verus!
