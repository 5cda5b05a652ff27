//! DOM tree representation: the internal DOM used by layout, rendering and
//! the agent engines. Deliberately simpler than the W3C DOM.
//!
//! Nodes live in a dense vector; a `NodeId` is the node's index, and every
//! node records its own id. Element attributes are kept as an ordered list
//! of `(name, value)` pairs in which a later pair overrides an earlier one
//! with the same name.
use vstd::prelude::*;
use vstd::string::StrSliceExecFns;
use crate::text::{
    all_ws, chars_of, has_sub, is_blank, lowercase, split_ws_spans, str_contains, str_eq, to_lower,
    to_owned_string, ws_tokens,
};

verus! {

/// A unique identifier for a DOM node.
#[derive(Debug, Clone, Copy, Hash, PartialEq, Eq, Structural)]
pub struct NodeId(pub u64);

/// A DOM node.
#[derive(Debug, Clone)]
pub struct DomNode {
    /// Unique identifier for this node.
    pub id: NodeId,
    /// The type of node.
    pub node_type: NodeType,
    /// Child node IDs.
    pub children: Vec<NodeId>,
    /// Parent node ID.
    pub parent: Option<NodeId>,
}

/// Types of DOM nodes.
#[derive(Debug, Clone)]
pub enum NodeType {
    /// The document root.
    Document,
    /// An element node (e.g., `<div>`, `<p>`, `<input>`).
    Element(ElementData),
    /// A text node.
    Text(String),
    /// A comment node.
    Comment(String),
}

/// Data for an element node.
#[derive(Debug, Clone)]
pub struct ElementData {
    /// Tag name (lowercased).
    pub tag_name: String,
    /// Element attributes as `(name, value)` pairs; a later pair overrides
    /// an earlier pair with the same name.
    pub attributes: Vec<(String, String)>,
}

/// The value of attribute `k` in an attribute list: the last pair named `k`.
pub open spec fn attr_get(attrs: Seq<(String, String)>, k: Seq<char>) -> Option<Seq<char>>
    decreases attrs.len(),
{
    if attrs.len() == 0 {
        None
    } else if attrs.last().0@ == k {
        Some(attrs.last().1@)
    } else {
        attr_get(attrs.drop_last(), k)
    }
}

/// Attribute pairs by their text.
pub open spec fn pair_views(a: Seq<(String, String)>) -> Seq<(Seq<char>, Seq<char>)> {
    a.map_values(|p: (String, String)| (p.0@, p.1@))
}

/// Whether an attribute list names each attribute once.
pub open spec fn unique_names(a: Seq<(Seq<char>, Seq<char>)>) -> bool {
    forall|i: int, j: int| 0 <= i < j < a.len() ==> (#[trigger] a[i]).0 != (#[trigger] a[j]).0
}

/// Whether a pair named `k` occurs in `a` at index `i` or later.
pub open spec fn named_from(a: Seq<(Seq<char>, Seq<char>)>, i: int, k: Seq<char>) -> bool {
    exists|j: int| i <= j < a.len() && (#[trigger] a[j]).0 == k
}

/// `a[i..]` with, for each name, only its last pair kept, in order: what
/// collecting the pairs into a map keeps.
pub open spec fn keep_last_from(a: Seq<(Seq<char>, Seq<char>)>, i: int) -> Seq<(Seq<char>, Seq<char>)>
    decreases a.len() - i,
{
    if i < 0 || i >= a.len() {
        Seq::empty()
    } else if named_from(a, i + 1, a[i].0) {
        keep_last_from(a, i + 1)
    } else {
        seq![a[i]] + keep_last_from(a, i + 1)
    }
}

/// `a` with, for each name, only its last pair kept, in order.
pub open spec fn keep_last(a: Seq<(Seq<char>, Seq<char>)>) -> Seq<(Seq<char>, Seq<char>)> {
    keep_last_from(a, 0)
}

/// Every pair of `keep_last_from(a, i)` is a pair of `a` at index `i` or
/// later with no later pair of its name, and no name occurs twice.
pub proof fn lemma_keep_last_unique(a: Seq<(Seq<char>, Seq<char>)>, i: int)
    requires
        0 <= i,
    ensures
        unique_names(keep_last_from(a, i)),
        forall|m: int|
            0 <= m < keep_last_from(a, i).len() ==> exists|j: int|
                i <= j < a.len() && #[trigger] keep_last_from(a, i)[m] == a[j] && !named_from(a, j + 1, a[j].0),
    decreases a.len() - i,
{
    if i < a.len() {
        lemma_keep_last_unique(a, i + 1);
        let rest = keep_last_from(a, i + 1);
        if !named_from(a, i + 1, a[i].0) {
            let r = seq![a[i]] + rest;
            assert forall|m: int| 0 <= m < r.len() implies exists|j: int|
                i <= j < a.len() && #[trigger] r[m] == a[j] && !named_from(a, j + 1, a[j].0) by {
                if m > 0 {
                    assert(r[m] == rest[m - 1]);
                }
            }
            assert forall|x: int, y: int| 0 <= x < y < r.len() implies (#[trigger] r[x]).0 != (#[trigger] r[y]).0 by {
                if x == 0 {
                    assert(r[y] == rest[y - 1]);
                    let j = choose|j: int| i + 1 <= j < a.len() && rest[y - 1] == a[j] && !named_from(a, j + 1, a[j].0);
                    if r[x].0 == r[y].0 {
                        assert(a[j].0 == a[i].0);
                        assert(named_from(a, i + 1, a[i].0));
                    }
                } else {
                    assert(r[x] == rest[x - 1]);
                    assert(r[y] == rest[y - 1]);
                }
            }
        }
    }
}

/// The tag names that `is_form_element` accepts.
pub open spec fn is_form_tag(t: Seq<char>) -> bool {
    t == "input"@ || t == "textarea"@ || t == "select"@ || t == "button"@ || t == "form"@
}

/// The `type` of an input element, `"text"` when absent.
pub open spec fn input_type(e: ElementData) -> Seq<char> {
    match attr_get(e.attributes@, "type"@) {
        Some(t) => t,
        None => "text"@,
    }
}

/// A field holding credentials: a password or hidden input, or an input
/// whose `autocomplete` names a password or payment-card field.
pub open spec fn sensitive(e: ElementData) -> bool {
    &&& e.tag_name@ == "input"@
    &&& {
        ||| input_type(e) == "password"@
        ||| input_type(e) == "hidden"@
        ||| match attr_get(e.attributes@, "autocomplete"@) {
            Some(ac) => has_sub(ac, "password"@) || has_sub(ac, "cc-number"@) || has_sub(
                ac,
                "cc-csc"@,
            ) || has_sub(ac, "cc-exp"@),
            None => false,
        }
    }
}

/// An email input: `type="email"`, or an `autocomplete` that mentions email.
pub open spec fn email_field(e: ElementData) -> bool {
    &&& e.tag_name@ == "input"@
    &&& {
        ||| input_type(e) == "email"@
        ||| match attr_get(e.attributes@, "autocomplete"@) {
            Some(ac) => ac == "email"@ || has_sub(ac, "email"@),
            None => false,
        }
    }
}

/// The class tokens of an element: the whitespace-separated words of its
/// `class` attribute.
pub open spec fn class_tokens(e: ElementData) -> Seq<Seq<char>> {
    match attr_get(e.attributes@, "class"@) {
        Some(c) => ws_tokens(c),
        None => Seq::empty(),
    }
}

/// Setting attribute `k` to `v` in an attribute list whose last pair named
/// `k` sits at index `j` (replacing that pair's value) overrides `k` only.
pub proof fn lemma_attr_replace(attrs: Seq<(String, String)>, j: int, pair: (String, String), k: Seq<char>)
    requires
        0 <= j < attrs.len(),
        attrs[j].0@ == pair.0@,
        forall|m: int| j < m < attrs.len() ==> attrs[m].0@ != pair.0@,
    ensures
        attr_get(attrs.update(j, pair), k) == if k == pair.0@ {
            Some(pair.1@)
        } else {
            attr_get(attrs, k)
        },
    decreases attrs.len(),
{
    let upd = attrs.update(j, pair);
    if j == attrs.len() - 1 {
        assert(upd.drop_last() =~= attrs.drop_last());
    } else {
        assert(upd.drop_last() =~= attrs.drop_last().update(j, pair));
        assert(upd.last() == attrs.last());
        lemma_attr_replace(attrs.drop_last(), j, pair, k);
    }
}

impl ElementData {
    /// Whether the element names each attribute once, as the attribute map
    /// of an element does; every constructor and `set_attribute` keep it.
    pub open spec fn attrs_unique(&self) -> bool {
        unique_names(pair_views(self.attributes@))
    }

    /// Create a new element with the given tag name (lowercased).
    pub fn new(tag_name: &str) -> (r: Self)
        ensures
            r.tag_name@ == lowercase(tag_name@),
            r.attributes@.len() == 0,
            r.attrs_unique(),
    {
        ElementData { tag_name: to_lower(tag_name), attributes: Vec::new() }
    }

    /// Create a new element with pre-parsed attributes; of pairs naming the
    /// same attribute only the last is kept, as a map built from them
    /// would keep it.
    pub fn with_attributes(tag_name: &str, attributes: Vec<(String, String)>) -> (r: Self)
        ensures
            r.tag_name@ == lowercase(tag_name@),
            pair_views(r.attributes@) == keep_last(pair_views(attributes@)),
            r.attrs_unique(),
    {
        let ghost a = pair_views(attributes@);
        let mut out: Vec<(String, String)> = Vec::new();
        let mut i: usize = 0;
        assert(pair_views(out@) + keep_last_from(a, 0) =~= keep_last(a));
        while i < attributes.len()
            invariant
                a == pair_views(attributes@),
                i <= attributes@.len(),
                pair_views(out@) + keep_last_from(a, i as int) == keep_last(a),
            decreases attributes@.len() - i,
        {
            let mut later = false;
            let mut j: usize = i + 1;
            while j < attributes.len()
                invariant
                    a == pair_views(attributes@),
                    i < attributes@.len(),
                    i + 1 <= j <= attributes@.len(),
                    later == exists|m: int| i + 1 <= m < j && (#[trigger] a[m]).0 == a[i as int].0,
                decreases attributes@.len() - j,
            {
                if str_eq(attributes[j].0.as_str(), attributes[i].0.as_str()) {
                    assert(a[j as int].0 == a[i as int].0);
                    later = true;
                }
                j += 1;
            }
            assert(later == named_from(a, i + 1, a[i as int].0));
            let ghost before = out@;
            if !later {
                out.push((to_owned_string(attributes[i].0.as_str()), to_owned_string(attributes[i].1.as_str())));
                assert(pair_views(out@) =~= pair_views(before).push(a[i as int]));
                assert(pair_views(out@) + keep_last_from(a, i + 1) =~= pair_views(before) + keep_last_from(a, i as int));
            }
            i += 1;
        }
        assert(keep_last_from(a, i as int) =~= Seq::<(Seq<char>, Seq<char>)>::empty());
        assert(pair_views(out@) =~= keep_last(a));
        proof {
            lemma_keep_last_unique(a, 0);
        }
        ElementData { tag_name: to_lower(tag_name), attributes: out }
    }

    /// Get an attribute value by name.
    pub fn get_attribute(&self, name: &str) -> (r: Option<&str>)
        ensures
            match r {
                Some(v) => attr_get(self.attributes@, name@) == Some(v@),
                None => attr_get(self.attributes@, name@) is None,
            },
    {
        let mut i = self.attributes.len();
        assert(self.attributes@.take(i as int) =~= self.attributes@);
        while i > 0
            invariant
                i <= self.attributes@.len(),
                attr_get(self.attributes@, name@) == attr_get(self.attributes@.take(i as int), name@),
            decreases i,
        {
            let ghost pre = self.attributes@.take(i as int);
            assert(pre.drop_last() =~= self.attributes@.take(i - 1));
            if str_eq(self.attributes[i - 1].0.as_str(), name) {
                return Some(self.attributes[i - 1].1.as_str());
            }
            i -= 1;
        }
        None
    }

    /// Set an attribute, overriding any earlier value of the same name.
    pub fn set_attribute(&mut self, name: &str, value: &str)
        ensures
            final(self).tag_name == old(self).tag_name,
            old(self).attrs_unique() ==> final(self).attrs_unique(),
            forall|k: Seq<char>|
                attr_get(#[trigger] final(self).attributes@, k) == if k == name@ {
                    Some(value@)
                } else {
                    attr_get(old(self).attributes@, k)
                },
    {
        let pair = (to_owned_string(name), to_owned_string(value));
        let mut i = self.attributes.len();
        while i > 0
            invariant
                i <= self.attributes@.len(),
                self.attributes@ == old(self).attributes@,
                self.tag_name == old(self).tag_name,
                pair.0@ == name@,
                pair.1@ == value@,
                forall|m: int| i <= m < self.attributes@.len() ==> self.attributes@[m].0@ != name@,
            decreases i,
        {
            if str_eq(self.attributes[i - 1].0.as_str(), name) {
                let ghost before = self.attributes@;
                let ghost gp = pair;
                assert(before[i - 1].0@ == name@);
                assert(gp.0@ == name@);
                self.attributes.set(i - 1, pair);
                assert forall|k: Seq<char>|
                    attr_get(#[trigger] self.attributes@, k) == if k == name@ {
                        Some(value@)
                    } else {
                        attr_get(old(self).attributes@, k)
                    } by {
                    lemma_attr_replace(before, i - 1, gp, k);
                }
                proof {
                    let v0 = pair_views(before);
                    let v1 = pair_views(self.attributes@);
                    assert(v1 =~= v0.update(i - 1, (name@, value@)));
                    if unique_names(v0) {
                        assert forall|x: int, y: int| 0 <= x < y < v1.len() implies (#[trigger] v1[x]).0
                            != (#[trigger] v1[y]).0 by {
                            assert(v0[x].0 != v0[y].0);
                        }
                    }
                }
                return;
            }
            i -= 1;
        }
        let ghost before = self.attributes@;
        self.attributes.push(pair);
        assert(self.attributes@.drop_last() =~= before);
        proof {
            let v0 = pair_views(before);
            let v1 = pair_views(self.attributes@);
            assert(v1 =~= v0.push((name@, value@)));
            if unique_names(v0) {
                assert forall|x: int, y: int| 0 <= x < y < v1.len() implies (#[trigger] v1[x]).0
                    != (#[trigger] v1[y]).0 by {
                    if y == v0.len() {
                        assert(before[x].0@ != name@);
                    } else {
                        assert(v0[x].0 != v0[y].0);
                    }
                }
            }
        }
    }

    /// Get the element's `id` attribute.
    pub fn id(&self) -> (r: Option<&str>)
        ensures
            match r {
                Some(v) => attr_get(self.attributes@, "id"@) == Some(v@),
                None => attr_get(self.attributes@, "id"@) is None,
            },
    {
        self.get_attribute("id")
    }

    /// Get CSS class tokens from the `class` attribute.
    pub fn classes(&self) -> (r: Vec<&str>)
        ensures
            r@.len() == class_tokens(*self).len(),
            forall|k: int| 0 <= k < r@.len() ==> (#[trigger] r@[k])@ == class_tokens(*self)[k],
    {
        match self.get_attribute("class") {
            None => Vec::new(),
            Some(c) => {
                let v = chars_of(c);
                let spans = split_ws_spans(&v);
                let mut out: Vec<&str> = Vec::new();
                let mut k: usize = 0;
                while k < spans.len()
                    invariant
                        v@ == c@,
                        spans@.len() == ws_tokens(v@).len(),
                        forall|m: int|
                            0 <= m < spans@.len() ==> {
                                let (a, b) = #[trigger] spans@[m];
                                a <= b <= v@.len() && v@.subrange(a as int, b as int) == ws_tokens(
                                    v@,
                                )[m]
                            },
                        k <= spans@.len(),
                        out@.len() == k,
                        forall|m: int| 0 <= m < k ==> (#[trigger] out@[m])@ == ws_tokens(v@)[m],
                    decreases spans@.len() - k,
                {
                    let (a, b) = spans[k];
                    let tok = c.substring_char(a, b);
                    out.push(tok);
                    k += 1;
                }
                out
            },
        }
    }

    /// Return `true` if this element is any form-related element.
    pub fn is_form_element(&self) -> (r: bool)
        ensures
            r == is_form_tag(self.tag_name@),
    {
        let t = self.tag_name.as_str();
        str_eq(t, "input") || str_eq(t, "textarea") || str_eq(t, "select") || str_eq(t, "button")
            || str_eq(t, "form")
    }

    /// The `type` attribute, defaulting to `"text"`.
    fn input_type_str(&self) -> (r: &str)
        ensures
            r@ == input_type(*self),
    {
        match self.get_attribute("type") {
            Some(t) => t,
            None => "text",
        }
    }

    /// Return `true` if this is a field that contains sensitive credentials:
    /// `<input type="password">`, `<input type="hidden">`, or an input whose
    /// `autocomplete` mentions `password`, `cc-number`, `cc-csc` or `cc-exp`.
    pub fn is_sensitive_field(&self) -> (r: bool)
        ensures
            r == sensitive(*self),
    {
        if !str_eq(self.tag_name.as_str(), "input") {
            return false;
        }
        let input_type = self.input_type_str();
        if str_eq(input_type, "password") || str_eq(input_type, "hidden") {
            return true;
        }
        match self.get_attribute("autocomplete") {
            Some(ac) => str_contains(ac, "password") || str_contains(ac, "cc-number")
                || str_contains(ac, "cc-csc") || str_contains(ac, "cc-exp"),
            None => false,
        }
    }

    /// Return `true` if this is an email input field.
    pub fn is_email_field(&self) -> (r: bool)
        ensures
            r == email_field(*self),
    {
        if !str_eq(self.tag_name.as_str(), "input") {
            return false;
        }
        let input_type = self.input_type_str();
        if str_eq(input_type, "email") {
            return true;
        }
        match self.get_attribute("autocomplete") {
            Some(ac) => str_eq(ac, "email") || str_contains(ac, "email"),
            None => false,
        }
    }
}

impl DomNode {
    /// Get a mutable reference to the element data if this is an element node.
    pub fn as_element_mut(&mut self) -> (r: Option<&mut ElementData>)
        ensures
            match old(self).node_type {
                NodeType::Element(e) => r matches Some(m) && *m == e && final(self).id == old(
                    self,
                ).id && final(self).children == old(self).children && final(self).parent == old(
                    self,
                ).parent && final(self).node_type == NodeType::Element(*final(m)),
                _ => r is None && *final(self) == *old(self),
            },
    {
        match &mut self.node_type {
            NodeType::Element(data) => Some(data),
            _ => None,
        }
    }
}

/// The node with id `id`, if `id` indexes a node recording that id.
pub open spec fn node_at(nodes: Seq<DomNode>, id: NodeId) -> Option<DomNode> {
    if id.0 < nodes.len() && nodes[id.0 as int].id == id {
        Some(nodes[id.0 as int])
    } else {
        None
    }
}

/// The element data of a node, if it is an element.
pub open spec fn elem_of(n: DomNode) -> Option<ElementData> {
    match n.node_type {
        NodeType::Element(e) => Some(e),
        _ => None,
    }
}

/// The element data of the nodes satisfying `p`, in document order.
pub open spec fn elems_where(nodes: Seq<DomNode>, p: spec_fn(ElementData) -> bool) -> Seq<
    ElementData,
>
    decreases nodes.len(),
{
    if nodes.len() == 0 {
        Seq::empty()
    } else {
        let rest = elems_where(nodes.drop_last(), p);
        match nodes.last().node_type {
            NodeType::Element(e) => if p(e) {
                rest.push(e)
            } else {
                rest
            },
            _ => rest,
        }
    }
}

/// The non-blank text node contents, in document order.
pub open spec fn texts_of(nodes: Seq<DomNode>) -> Seq<Seq<char>>
    decreases nodes.len(),
{
    if nodes.len() == 0 {
        Seq::empty()
    } else {
        let rest = texts_of(nodes.drop_last());
        match nodes.last().node_type {
            NodeType::Text(t) => if !all_ws(t@) {
                rest.push(t@)
            } else {
                rest
            },
            _ => rest,
        }
    }
}

/// An element whose tag name is `t`.
pub open spec fn has_tag(t: Seq<char>) -> spec_fn(ElementData) -> bool {
    |e: ElementData| e.tag_name@ == t
}

/// An element whose `id` attribute is `id`.
pub open spec fn has_id_attr(n: DomNode, id: Seq<char>) -> bool {
    match n.node_type {
        NodeType::Element(e) => attr_get(e.attributes@, "id"@) == Some(id),
        _ => false,
    }
}

/// The nodes of `new` are those of `old` with `child`'s parent set to
/// `parent` and `child` appended to `parent`'s children (each where the id
/// names a node).
pub open spec fn appended(old: Seq<DomNode>, new: Seq<DomNode>, parent: NodeId, child: NodeId) -> bool {
    &&& new.len() == old.len()
    &&& forall|i: int|
        0 <= i < old.len() ==> {
            &&& (#[trigger] new[i]).id == old[i].id
            &&& new[i].node_type == old[i].node_type
            &&& new[i].parent == if node_at(old, child) is Some && i == child.0 {
                Some(parent)
            } else {
                old[i].parent
            }
            &&& new[i].children@ == if node_at(old, parent) is Some && i == parent.0 {
                old[i].children@.push(child)
            } else {
                old[i].children@
            }
        }
}

/// The number of unvisited entries of a visit mask.
pub open spec fn unseen(mask: Seq<bool>) -> nat
    decreases mask.len(),
{
    if mask.len() == 0 {
        0
    } else {
        unseen(mask.drop_last()) + if mask.last() {
            0nat
        } else {
            1nat
        }
    }
}

/// Marking an unvisited entry visited leaves one fewer unvisited.
pub proof fn lemma_unseen_mark(mask: Seq<bool>, i: int)
    requires
        0 <= i < mask.len(),
        !mask[i],
    ensures
        unseen(mask.update(i, true)) + 1 == unseen(mask),
    decreases mask.len(),
{
    if i == mask.len() - 1 {
        assert(mask.update(i, true).drop_last() =~= mask.drop_last());
    } else {
        assert(mask.update(i, true).drop_last() =~= mask.drop_last().update(i, true));
        lemma_unseen_mark(mask.drop_last(), i);
    }
}

/// Whether `id` names a node of `nodes` that the mask `seen` has not
/// visited yet.
pub open spec fn fresh(nodes: Seq<DomNode>, seen: Seq<bool>, id: NodeId) -> bool {
    &&& id.0 < nodes.len()
    &&& id.0 < seen.len()
    &&& nodes[id.0 as int].id == id
    &&& !seen[id.0 as int]
}

/// The nodes met, in order, by a breadth-first walk that takes ids from
/// the front of `queue`, visits each node once, and queues its children
/// in order.
pub open spec fn bfs_walk(nodes: Seq<DomNode>, queue: Seq<NodeId>, seen: Seq<bool>) -> Seq<NodeId>
    decreases unseen(seen), queue.len(),
{
    if queue.len() == 0 {
        Seq::empty()
    } else if fresh(nodes, seen, queue[0]) {
        let id = queue[0];
        proof {
            lemma_unseen_mark(seen, id.0 as int);
        }
        seq![id] + bfs_walk(
            nodes,
            queue.drop_first() + nodes[id.0 as int].children@,
            seen.update(id.0 as int, true),
        )
    } else {
        bfs_walk(nodes, queue.drop_first(), seen)
    }
}

/// The nodes met, in order, by a depth-first pre-order walk that takes ids
/// from the top (back) of `stack`, visits each node once, and stacks its
/// children so that the first child is met next: document order.
pub open spec fn dfs_walk(nodes: Seq<DomNode>, stack: Seq<NodeId>, seen: Seq<bool>) -> Seq<NodeId>
    decreases unseen(seen), stack.len(),
{
    if stack.len() == 0 {
        Seq::empty()
    } else if fresh(nodes, seen, stack.last()) {
        let id = stack.last();
        proof {
            lemma_unseen_mark(seen, id.0 as int);
        }
        seq![id] + dfs_walk(
            nodes,
            stack.drop_last() + nodes[id.0 as int].children@.reverse(),
            seen.update(id.0 as int, true),
        )
    } else {
        dfs_walk(nodes, stack.drop_last(), seen)
    }
}

/// A visit mask with nothing visited.
pub open spec fn unvisited(n: nat) -> Seq<bool> {
    Seq::new(n, |i: int| false)
}

/// Where a walk of the document starts: at the root, if there is one.
pub open spec fn start_of(root: Option<NodeId>) -> Seq<NodeId> {
    match root {
        Some(r) => seq![r],
        None => Seq::empty(),
    }
}

/// The element data of the first node in `order` that is an element with
/// tag name `tag`.
pub open spec fn first_tagged(nodes: Seq<DomNode>, order: Seq<NodeId>, tag: Seq<char>) -> Option<ElementData>
    decreases order.len(),
{
    if order.len() == 0 {
        None
    } else {
        match node_at(nodes, order[0]) {
            Some(n) => match elem_of(n) {
                Some(e) => if e.tag_name@ == tag {
                    Some(e)
                } else {
                    first_tagged(nodes, order.drop_first(), tag)
                },
                None => first_tagged(nodes, order.drop_first(), tag),
            },
            None => first_tagged(nodes, order.drop_first(), tag),
        }
    }
}

/// The non-blank texts of the text nodes in `order`, in that order.
pub open spec fn texts_in(nodes: Seq<DomNode>, order: Seq<NodeId>) -> Seq<Seq<char>>
    decreases order.len(),
{
    if order.len() == 0 {
        Seq::empty()
    } else {
        let rest = texts_in(nodes, order.drop_first());
        match node_at(nodes, order[0]) {
            Some(n) => match n.node_type {
                NodeType::Text(t) => if !all_ws(t@) {
                    seq![t@] + rest
                } else {
                    rest
                },
                _ => rest,
            },
            None => rest,
        }
    }
}

/// The DOM tree — owns all nodes and provides traversal methods.
#[derive(Debug)]
pub struct DomTree {
    /// All nodes in the tree (densely packed — NodeId indexes into this vec).
    nodes: Vec<DomNode>,
    /// The root document node ID.
    root: Option<NodeId>,
}

impl View for DomTree {
    type V = Seq<DomNode>;

    closed spec fn view(&self) -> Seq<DomNode> {
        self.nodes@
    }
}

impl DomTree {
    /// The id the next created node receives: the node count, since ids
    /// are handed out in creation order starting at 0.
    pub closed spec fn next_id_spec(&self) -> u64 {
        self.nodes@.len() as u64
    }

    /// The root document node's id, once a document node exists.
    pub closed spec fn root_spec(&self) -> Option<NodeId> {
        self.root
    }

    /// The nodes in breadth-first order from the root (none without one).
    pub open spec fn bfs_order(&self) -> Seq<NodeId> {
        bfs_walk(self@, start_of(self.root_spec()), unvisited(self@.len()))
    }

    /// The nodes in document order: pre-order from the root (none without
    /// one).
    pub open spec fn document_order(&self) -> Seq<NodeId> {
        dfs_walk(self@, start_of(self.root_spec()), unvisited(self@.len()))
    }

    /// Well-formedness: every node records its own index as its id, the
    /// next id is the node count, and the root names a node.
    pub open spec fn wf(&self) -> bool {
        &&& forall|i: int| 0 <= i < self@.len() ==> (#[trigger] self@[i]).id.0 == i
        &&& self.next_id_spec() == self@.len()
        &&& self.root_spec() matches Some(r) ==> r.0 < self@.len()
    }

    /// Create a new, empty DOM tree.
    pub fn new() -> (r: Self)
        ensures
            r@.len() == 0,
            r.root_spec() is None,
            r.next_id_spec() == 0,
            r.wf(),
    {
        let r = DomTree { nodes: Vec::new(), root: None };
        assert(r@.len() == 0);
        r
    }

    /// Append a fresh node of the given type and return its id.
    fn push_node(&mut self, node_type: NodeType) -> (r: NodeId)
        requires
            old(self).next_id_spec() < u64::MAX,
        ensures
            r == NodeId(old(self).next_id_spec()),
            r.0 == old(self)@.len(),
            node_at(final(self)@, r) == Some(final(self)@.last()),
            final(self)@ == old(self)@.push(
                DomNode { id: r, node_type, children: final(self)@.last().children, parent: None },
            ),
            final(self)@.last().children@.len() == 0,
            final(self).next_id_spec() == old(self).next_id_spec() + 1,
            final(self).root_spec() == old(self).root_spec(),
            old(self).wf() ==> final(self).wf(),
    {
        let n = self.nodes.len();
        let id = NodeId(n as u64);
        self.nodes.push(DomNode { id, node_type, children: Vec::new(), parent: None });
        id
    }

    /// Create the document root node.
    pub fn create_document(&mut self) -> (r: NodeId)
        requires
            old(self).next_id_spec() < u64::MAX,
        ensures
            r == NodeId(old(self).next_id_spec()),
            r.0 == old(self)@.len(),
            node_at(final(self)@, r) == Some(final(self)@.last()),
            final(self)@.len() == old(self)@.len() + 1,
            final(self)@.drop_last() == old(self)@,
            final(self)@.last().id == r,
            final(self)@.last().node_type == NodeType::Document,
            final(self)@.last().children@.len() == 0,
            final(self)@.last().parent is None,
            final(self).root_spec() == Some(r),
            final(self).next_id_spec() == old(self).next_id_spec() + 1,
            old(self).wf() ==> final(self).wf(),
    {
        let id = self.push_node(NodeType::Document);
        self.root = Some(id);
        proof {
            assert(self@.drop_last() =~= old(self)@);
        }
        id
    }

    /// Create an element node with no attributes.
    pub fn create_element(&mut self, tag_name: &str) -> (r: NodeId)
        requires
            old(self).next_id_spec() < u64::MAX,
        ensures
            r == NodeId(old(self).next_id_spec()),
            r.0 == old(self)@.len(),
            node_at(final(self)@, r) == Some(final(self)@.last()),
            final(self)@.len() == old(self)@.len() + 1,
            final(self)@.drop_last() == old(self)@,
            final(self)@.last().id == r,
            final(self)@.last().node_type matches NodeType::Element(e) && e.tag_name@ == lowercase(
                tag_name@,
            ) && e.attributes@.len() == 0,
            final(self)@.last().children@.len() == 0,
            final(self)@.last().parent is None,
            final(self).root_spec() == old(self).root_spec(),
            final(self).next_id_spec() == old(self).next_id_spec() + 1,
            old(self).wf() ==> final(self).wf(),
    {
        let id = self.push_node(NodeType::Element(ElementData::new(tag_name)));
        proof {
            assert(self@.drop_last() =~= old(self)@);
        }
        id
    }

    /// Create an element node with pre-parsed attributes.
    pub fn create_element_with_attrs(&mut self, tag_name: &str, attributes: Vec<(String, String)>) -> (r:
        NodeId)
        requires
            old(self).next_id_spec() < u64::MAX,
        ensures
            r == NodeId(old(self).next_id_spec()),
            r.0 == old(self)@.len(),
            node_at(final(self)@, r) == Some(final(self)@.last()),
            final(self)@.len() == old(self)@.len() + 1,
            final(self)@.drop_last() == old(self)@,
            final(self)@.last().id == r,
            final(self)@.last().node_type matches NodeType::Element(e) && e.tag_name@ == lowercase(
                tag_name@,
            ) && pair_views(e.attributes@) == keep_last(pair_views(attributes@)) && e.attrs_unique(),
            final(self)@.last().children@.len() == 0,
            final(self)@.last().parent is None,
            final(self).root_spec() == old(self).root_spec(),
            final(self).next_id_spec() == old(self).next_id_spec() + 1,
            old(self).wf() ==> final(self).wf(),
    {
        let id = self.push_node(NodeType::Element(ElementData::with_attributes(tag_name, attributes)));
        proof {
            assert(self@.drop_last() =~= old(self)@);
        }
        id
    }

    /// Create a text node.
    pub fn create_text(&mut self, text: &str) -> (r: NodeId)
        requires
            old(self).next_id_spec() < u64::MAX,
        ensures
            r == NodeId(old(self).next_id_spec()),
            r.0 == old(self)@.len(),
            node_at(final(self)@, r) == Some(final(self)@.last()),
            final(self)@.len() == old(self)@.len() + 1,
            final(self)@.drop_last() == old(self)@,
            final(self)@.last().id == r,
            final(self)@.last().node_type matches NodeType::Text(t) && t@ == text@,
            final(self)@.last().children@.len() == 0,
            final(self)@.last().parent is None,
            final(self).root_spec() == old(self).root_spec(),
            final(self).next_id_spec() == old(self).next_id_spec() + 1,
            old(self).wf() ==> final(self).wf(),
    {
        let id = self.push_node(NodeType::Text(to_owned_string(text)));
        proof {
            assert(self@.drop_last() =~= old(self)@);
        }
        id
    }

    /// Create a comment node.
    pub fn create_comment(&mut self, text: &str) -> (r: NodeId)
        requires
            old(self).next_id_spec() < u64::MAX,
        ensures
            r == NodeId(old(self).next_id_spec()),
            r.0 == old(self)@.len(),
            node_at(final(self)@, r) == Some(final(self)@.last()),
            final(self)@.len() == old(self)@.len() + 1,
            final(self)@.drop_last() == old(self)@,
            final(self)@.last().id == r,
            final(self)@.last().node_type matches NodeType::Comment(t) && t@ == text@,
            final(self)@.last().children@.len() == 0,
            final(self)@.last().parent is None,
            final(self).root_spec() == old(self).root_spec(),
            final(self).next_id_spec() == old(self).next_id_spec() + 1,
            old(self).wf() ==> final(self).wf(),
    {
        let id = self.push_node(NodeType::Comment(to_owned_string(text)));
        proof {
            assert(self@.drop_last() =~= old(self)@);
        }
        id
    }

    /// Append `child` as the last child of `parent`.
    pub fn append_child(&mut self, parent: NodeId, child: NodeId)
        ensures
            appended(old(self)@, final(self)@, parent, child),
            final(self).root_spec() == old(self).root_spec(),
            final(self).next_id_spec() == old(self).next_id_spec(),
            old(self).wf() ==> final(self).wf(),
    {
        let ghost n0 = self@;
        let ghost has_child = node_at(n0, child) is Some;
        let ghost has_parent = node_at(n0, parent) is Some;
        if let Some(child_node) = self.get_node_mut(child) {
            child_node.parent = Some(parent);
        }
        let ghost n1 = self@;
        if let Some(parent_node) = self.get_node_mut(parent) {
            parent_node.children.push(child);
        }
        proof {
            assert forall|i: int| 0 <= i < n0.len() implies {
                &&& (#[trigger] self@[i]).id == n0[i].id
                &&& self@[i].node_type == n0[i].node_type
                &&& self@[i].parent == if has_child && i == child.0 {
                    Some(parent)
                } else {
                    n0[i].parent
                }
                &&& self@[i].children@ == if has_parent && i == parent.0 {
                    n0[i].children@.push(child)
                } else {
                    n0[i].children@
                }
            } by {
                assert(n1[i].id == n0[i].id);
            }
        }
    }

    /// Get a node by `NodeId` (immutable).
    pub fn get_node(&self, id: NodeId) -> (r: Option<&DomNode>)
        ensures
            match r {
                Some(n) => node_at(self@, id) == Some(*n),
                None => node_at(self@, id) is None,
            },
    {
        if id.0 < self.nodes.len() as u64 {
            let n = &self.nodes[id.0 as usize];
            if n.id == id {
                return Some(n);
            }
        }
        None
    }

    /// Get a node by `NodeId` (mutable).
    pub fn get_node_mut(&mut self, id: NodeId) -> (r: Option<&mut DomNode>)
        ensures
            node_at(old(self)@, id) is Some ==> (r matches Some(m) && *m == old(self)@[id.0 as int]
                && final(self)@ == old(self)@.update(id.0 as int, *final(m))),
            node_at(old(self)@, id) is None ==> r is None && final(self)@ == old(self)@,
            final(self).root_spec() == old(self).root_spec(),
            final(self).next_id_spec() == old(self).next_id_spec(),
    {
        if id.0 < self.nodes.len() as u64 {
            let i = id.0 as usize;
            if self.nodes[i].id == id {
                return Some(&mut self.nodes[i]);
            }
        }
        None
    }

    /// Get the root document node.
    pub fn root(&self) -> (r: Option<&DomNode>)
        ensures
            match r {
                Some(n) => self.root_spec() matches Some(id) && node_at(self@, id) == Some(*n),
                None => self.root_spec() matches Some(id) ==> node_at(self@, id) is None,
            },
    {
        match self.root {
            Some(id) => self.get_node(id),
            None => None,
        }
    }

    /// Get all nodes.
    pub fn nodes(&self) -> (r: &[DomNode])
        ensures
            r@ == self@,
    {
        self.nodes.as_slice()
    }

    /// Total number of nodes in the tree.
    pub fn node_count(&self) -> (r: usize)
        ensures
            r == self@.len(),
    {
        self.nodes.len()
    }

    /// A visit mask for this tree with nothing visited.
    fn fresh_mask(&self) -> (r: Vec<bool>)
        ensures
            r@ == unvisited(self@.len()),
    {
        let mut seen: Vec<bool> = Vec::new();
        while seen.len() < self.nodes.len()
            invariant
                seen@.len() <= self@.len(),
                forall|k: int| 0 <= k < seen@.len() ==> !seen@[k],
            decreases self@.len() - seen@.len(),
        {
            seen.push(false);
        }
        assert(seen@ =~= unvisited(self@.len()));
        seen
    }

    /// The index of the node `id` names, when it is one not yet visited in
    /// `seen`.
    fn fresh_index(&self, seen: &Vec<bool>, id: NodeId) -> (r: Option<usize>)
        requires
            seen@.len() == self@.len(),
        ensures
            r is Some <==> fresh(self@, seen@, id),
            r matches Some(i) ==> i == id.0,
    {
        if id.0 < self.nodes.len() as u64 {
            let i = id.0 as usize;
            if self.nodes[i].id == id && !seen[i] {
                Some(i)
            } else {
                None
            }
        } else {
            None
        }
    }

    /// The walk to start from: the root, if there is one.
    fn start(&self) -> (r: Vec<NodeId>)
        ensures
            r@ == start_of(self.root_spec()),
    {
        let mut v: Vec<NodeId> = Vec::new();
        match self.root {
            Some(r) => {
                v.push(r);
                assert(v@ =~= seq![r]);
            },
            None => {
                assert(v@ =~= Seq::<NodeId>::empty());
            },
        }
        v
    }

    /// Find the first element with the given tag name (compared after
    /// lowercasing the query), searching breadth-first from the root.
    pub fn find_element(&self, tag_name: &str) -> (r: Option<&ElementData>)
        ensures
            match r {
                Some(e) => first_tagged(self@, self.bfs_order(), lowercase(tag_name@)) == Some(*e),
                None => first_tagged(self@, self.bfs_order(), lowercase(tag_name@)) is None,
            },
    {
        let tag = to_lower(tag_name);
        let ghost nodes = self@;
        let mut seen = self.fresh_mask();
        let mut q = self.start();
        let mut h: usize = 0;
        assert(q@.subrange(0, q@.len() as int) =~= q@);
        while h < q.len()
            invariant
                nodes == self@,
                tag@ == lowercase(tag_name@),
                seen@.len() == nodes.len(),
                h <= q@.len(),
                first_tagged(nodes, self.bfs_order(), tag@) == first_tagged(
                    nodes,
                    bfs_walk(nodes, q@.subrange(h as int, q@.len() as int), seen@),
                    tag@,
                ),
            decreases unseen(seen@), q@.len() - h,
        {
            let ghost qs = q@.subrange(h as int, q@.len() as int);
            let ghost seen0 = seen@;
            let id = q[h];
            assert(qs[0] == id);
            assert(qs.drop_first() =~= q@.subrange(h + 1, q@.len() as int));
            let fi = self.fresh_index(&seen, id);
            if fi.is_some() {
                let i = fi.unwrap();
                proof {
                    lemma_unseen_mark(seen0, i as int);
                }
                let ghost w = bfs_walk(nodes, qs.drop_first() + nodes[i as int].children@, seen0.update(i as int, true));
                assert(bfs_walk(nodes, qs, seen0) == seq![id] + w);
                assert((seq![id] + w)[0] == id);
                assert((seq![id] + w).drop_first() =~= w);
                assert(node_at(nodes, id) == Some(nodes[i as int]));
                if let NodeType::Element(e) = &self.nodes[i].node_type {
                    if e.tag_name == tag {
                        return Some(e);
                    }
                }
                seen.set(i, true);
                h += 1;
                let kids = &self.nodes[i].children;
                let ghost q1 = q@;
                let mut j: usize = 0;
                while j < kids.len()
                    invariant
                        q@ == q1 + kids@.take(j as int),
                        j <= kids@.len(),
                    decreases kids@.len() - j,
                {
                    q.push(kids[j]);
                    assert(kids@.take(j + 1) =~= kids@.take(j as int).push(kids@[j as int]));
                    j += 1;
                }
                assert(kids@.take(kids@.len() as int) =~= kids@);
                assert(q@.subrange(h as int, q@.len() as int) =~= qs.drop_first() + nodes[i as int].children@);
            } else {
                h += 1;
                assert(bfs_walk(nodes, qs, seen0) == bfs_walk(nodes, qs.drop_first(), seen0));
            }
        }
        assert(q@.subrange(h as int, q@.len() as int) =~= Seq::<NodeId>::empty());
        None
    }

    /// The element data of every element node satisfying the tag filter.
    pub fn find_all_elements(&self, tag_name: &str) -> (r: Vec<&ElementData>)
        ensures
            r@.len() == elems_where(self@, has_tag(lowercase(tag_name@))).len(),
            forall|k: int|
                0 <= k < r@.len() ==> *(#[trigger] r@[k]) == elems_where(
                    self@,
                    has_tag(lowercase(tag_name@)),
                )[k],
    {
        let tag = to_lower(tag_name);
        let ghost p = has_tag(lowercase(tag_name@));
        let mut out: Vec<&ElementData> = Vec::new();
        let mut i: usize = 0;
        while i < self.nodes.len()
            invariant
                tag@ == lowercase(tag_name@),
                p == has_tag(lowercase(tag_name@)),
                i <= self@.len(),
                out@.len() == elems_where(self@.take(i as int), p).len(),
                forall|k: int|
                    0 <= k < out@.len() ==> *(#[trigger] out@[k]) == elems_where(
                        self@.take(i as int),
                        p,
                    )[k],
            decreases self@.len() - i,
        {
            assert(self@.take(i + 1).drop_last() =~= self@.take(i as int));
            assert(self@.take(i + 1).last() == self@[i as int]);
            if let NodeType::Element(e) = &self.nodes[i].node_type {
                if e.tag_name == tag {
                    out.push(e);
                }
            }
            i += 1;
        }
        assert(self@.take(self@.len() as int) =~= self@);
        out
    }

    /// Set the text content of a node: its children are replaced by one new
    /// text node.
    pub fn set_text_content(&mut self, node_id: NodeId, text: &str)
        requires
            old(self).wf(),
            old(self).next_id_spec() < u64::MAX,
        ensures
            node_at(old(self)@, node_id) is None ==> final(self)@ == old(self)@
                && final(self).next_id_spec() == old(self).next_id_spec(),
            node_at(old(self)@, node_id) is Some ==> replaced_by_text(
                old(self)@,
                final(self)@,
                node_id,
                NodeId(old(self).next_id_spec()),
                text@,
            ) && final(self).next_id_spec() == old(self).next_id_spec() + 1,
            final(self).root_spec() == old(self).root_spec(),
            final(self).wf(),
    {
        self.replace_children_with_text(node_id, text)
    }

    /// Set the inner HTML of a node. The markup is not parsed: the node's
    /// children are replaced by one text node holding it.
    pub fn set_inner_html(&mut self, node_id: NodeId, html: &str)
        requires
            old(self).wf(),
            old(self).next_id_spec() < u64::MAX,
        ensures
            node_at(old(self)@, node_id) is None ==> final(self)@ == old(self)@
                && final(self).next_id_spec() == old(self).next_id_spec(),
            node_at(old(self)@, node_id) is Some ==> replaced_by_text(
                old(self)@,
                final(self)@,
                node_id,
                NodeId(old(self).next_id_spec()),
                html@,
            ) && final(self).next_id_spec() == old(self).next_id_spec() + 1,
            final(self).root_spec() == old(self).root_spec(),
            final(self).wf(),
    {
        self.replace_children_with_text(node_id, html)
    }

    fn replace_children_with_text(&mut self, node_id: NodeId, text: &str)
        requires
            old(self).wf(),
            old(self).next_id_spec() < u64::MAX,
        ensures
            node_at(old(self)@, node_id) is None ==> final(self)@ == old(self)@
                && final(self).next_id_spec() == old(self).next_id_spec(),
            node_at(old(self)@, node_id) is Some ==> replaced_by_text(
                old(self)@,
                final(self)@,
                node_id,
                NodeId(old(self).next_id_spec()),
                text@,
            ) && final(self).next_id_spec() == old(self).next_id_spec() + 1,
            final(self).root_spec() == old(self).root_spec(),
            final(self).wf(),
    {
        let ghost n0 = self@;
        let found = self.get_node(node_id).is_some();
        if found {
            match self.get_node_mut(node_id) {
                Some(node) => {
                    node.children.clear();
                },
                None => {},
            }
            let ghost n1 = self@;
            let t = self.create_text(text);
            let ghost n2 = self@;
            self.append_child(node_id, t);
            proof {
                assert(node_at(n1, node_id) is Some);
                assert(node_at(n2, node_id) is Some);
                assert(node_at(n2, t) is Some);
                assert forall|i: int| 0 <= i < n0.len() && i != node_id.0 implies same_node(
                    #[trigger] self@[i],
                    n0[i],
                ) by {
                    assert(n2[i] == n1[i]);
                    assert(n1[i] == n0[i]);
                }
                assert(self@[node_id.0 as int].children@ =~= seq![t]);
            }
        }
    }

    /// Find an element by its `id` attribute.
    pub fn get_element_by_id(&self, id: &str) -> (r: Option<NodeId>)
        ensures
            match r {
                Some(n) => exists|i: int|
                    0 <= i < self@.len() && #[trigger] has_id_attr(self@[i], id@) && self@[i].id == n
                        && forall|j: int| 0 <= j < i ==> !has_id_attr(#[trigger] self@[j], id@),
                None => forall|i: int| 0 <= i < self@.len() ==> !has_id_attr(#[trigger] self@[i], id@),
            },
    {
        let mut i: usize = 0;
        while i < self.nodes.len()
            invariant
                i <= self@.len(),
                forall|j: int| 0 <= j < i ==> !has_id_attr(#[trigger] self@[j], id@),
            decreases self@.len() - i,
        {
            if let NodeType::Element(e) = &self.nodes[i].node_type {
                match e.id() {
                    Some(v) => {
                        if str_eq(v, id) {
                            assert(has_id_attr(self@[i as int], id@));
                            return Some(self.nodes[i].id);
                        }
                    },
                    None => {},
                }
            }
            i += 1;
        }
        None
    }

    /// All non-empty (after trimming) text node contents in document order:
    /// a pre-order walk from the root.
    pub fn text_nodes(&self) -> (r: Vec<&str>)
        ensures
            r@.len() == texts_in(self@, self.document_order()).len(),
            forall|k: int| 0 <= k < r@.len() ==> (#[trigger] r@[k])@ == texts_in(self@, self.document_order())[k],
    {
        let ghost nodes = self@;
        let ghost full = texts_in(nodes, self.document_order());
        let mut seen = self.fresh_mask();
        let mut stack = self.start();
        let mut out: Vec<&str> = Vec::new();
        let ghost mut acc: Seq<Seq<char>> = Seq::empty();
        while stack.len() > 0
            invariant
                nodes == self@,
                seen@.len() == nodes.len(),
                full == texts_in(nodes, self.document_order()),
                out@.len() == acc.len(),
                forall|k: int| 0 <= k < out@.len() ==> (#[trigger] out@[k])@ == acc[k],
                acc + texts_in(nodes, dfs_walk(nodes, stack@, seen@)) == full,
            decreases unseen(seen@), stack@.len(),
        {
            let ghost st = stack@;
            let ghost seen0 = seen@;
            let id = stack.pop().unwrap();
            assert(id == st.last());
            assert(stack@ == st.drop_last());
            let fi = self.fresh_index(&seen, id);
            if fi.is_some() {
                let i = fi.unwrap();
                proof {
                    lemma_unseen_mark(seen0, i as int);
                }
                let ghost w = dfs_walk(nodes, st.drop_last() + nodes[i as int].children@.reverse(), seen0.update(i as int, true));
                assert(dfs_walk(nodes, st, seen0) == seq![id] + w);
                assert((seq![id] + w)[0] == id);
                assert((seq![id] + w).drop_first() =~= w);
                assert(node_at(nodes, id) == Some(nodes[i as int]));
                if let NodeType::Text(t) = &self.nodes[i].node_type {
                    if !is_blank(t.as_str()) {
                        out.push(t.as_str());
                        proof {
                            assert(acc.push(t@) + texts_in(nodes, w) =~= acc + (seq![t@] + texts_in(nodes, w)));
                            acc = acc.push(t@);
                        }
                    }
                }
                seen.set(i, true);
                let kids = &self.nodes[i].children;
                let ghost s1 = stack@;
                let mut j: usize = kids.len();
                assert(kids@.subrange(j as int, kids@.len() as int).reverse() =~= Seq::<NodeId>::empty());
                while j > 0
                    invariant
                        j <= kids@.len(),
                        stack@ == s1 + kids@.subrange(j as int, kids@.len() as int).reverse(),
                    decreases j,
                {
                    j -= 1;
                    stack.push(kids[j]);
                    assert(kids@.subrange(j as int, kids@.len() as int).reverse() =~= kids@.subrange(
                        j + 1,
                        kids@.len() as int,
                    ).reverse().push(kids@[j as int]));
                }
                assert(kids@.subrange(0, kids@.len() as int) =~= kids@);
            } else {
                assert(dfs_walk(nodes, st, seen0) == dfs_walk(nodes, st.drop_last(), seen0));
            }
        }
        assert(dfs_walk(nodes, stack@, seen@) == Seq::<NodeId>::empty());
        assert(acc + Seq::<Seq<char>>::empty() =~= acc);
        out
    }

    /// The sensitive input fields (see `ElementData::is_sensitive_field`),
    /// in document order.
    pub fn find_password_fields(&self) -> (r: Vec<&ElementData>)
        ensures
            r@.len() == elems_where(self@, |e: ElementData| sensitive(e)).len(),
            forall|k: int|
                0 <= k < r@.len() ==> *(#[trigger] r@[k]) == elems_where(
                    self@,
                    |e: ElementData| sensitive(e),
                )[k],
    {
        let ghost p = |e: ElementData| sensitive(e);
        let mut out: Vec<&ElementData> = Vec::new();
        let mut i: usize = 0;
        while i < self.nodes.len()
            invariant
                p == (|e: ElementData| sensitive(e)),
                i <= self@.len(),
                out@.len() == elems_where(self@.take(i as int), p).len(),
                forall|k: int|
                    0 <= k < out@.len() ==> *(#[trigger] out@[k]) == elems_where(
                        self@.take(i as int),
                        p,
                    )[k],
            decreases self@.len() - i,
        {
            assert(self@.take(i + 1).drop_last() =~= self@.take(i as int));
            assert(self@.take(i + 1).last() == self@[i as int]);
            if let NodeType::Element(e) = &self.nodes[i].node_type {
                if e.is_sensitive_field() {
                    out.push(e);
                }
            }
            i += 1;
        }
        assert(self@.take(self@.len() as int) =~= self@);
        out
    }
}

/// Two nodes agree in id, type, parent and children.
pub open spec fn same_node(a: DomNode, b: DomNode) -> bool {
    &&& a.id == b.id
    &&& a.node_type == b.node_type
    &&& a.parent == b.parent
    &&& a.children@ == b.children@
}

/// `new` is `old` with the node `target`'s children replaced by the single
/// new text node `t` (holding `text`, child of `target`), appended at the end.
pub open spec fn replaced_by_text(old: Seq<DomNode>, new: Seq<DomNode>, target: NodeId, t: NodeId, text: Seq<
    char,
>) -> bool {
    &&& new.len() == old.len() + 1
    &&& t.0 == old.len()
    &&& forall|i: int| 0 <= i < old.len() && i != target.0 ==> same_node(#[trigger] new[i], old[i])
    &&& new[target.0 as int].id == old[target.0 as int].id
    &&& new[target.0 as int].node_type == old[target.0 as int].node_type
    &&& new[target.0 as int].parent == old[target.0 as int].parent
    &&& new[target.0 as int].children@ == seq![t]
    &&& new.last().id == t
    &&& new.last().node_type matches NodeType::Text(s) && s@ == text
    &&& new.last().parent == Some(target)
    &&& new.last().children@.len() == 0
}

impl Default for DomTree {
    fn default() -> (r: Self)
        ensures
            r@.len() == 0,
            r.root_spec() is None,
            r.wf(),
    {
        Self::new()
    }
}

/// In a well-formed tree every node is found by its own id, and no id
/// past the end names a node.
pub proof fn lemma_ids_find_nodes(t: &DomTree, i: int)
    requires
        t.wf(),
        0 <= i <= u64::MAX,
    ensures
        i < t@.len() ==> node_at(t@, NodeId(i as u64)) == Some(t@[i]),
        i >= t@.len() ==> node_at(t@, NodeId(i as u64)) is None,
{
}

/// Creating a node (of any kind) makes it findable by the returned id and
/// leaves every earlier lookup unchanged.
pub proof fn lemma_create_then_get(old: Seq<DomNode>, new: Seq<DomNode>, r: NodeId, other: NodeId)
    requires
        forall|i: int| 0 <= i < old.len() ==> (#[trigger] old[i]).id.0 == i,
        r.0 == old.len(),
        new.len() == old.len() + 1,
        new.drop_last() == old,
        new.last().id == r,
    ensures
        node_at(new, r) == Some(new.last()),
        other != r ==> node_at(new, other) == node_at(old, other),
{
    if other != r && other.0 < old.len() {
        assert(new[other.0 as int] == new.drop_last()[other.0 as int]);
    }
}

/// Appending a child never adds or removes nodes, and only the parent's
/// child list and the child's parent change.
pub proof fn lemma_append_keeps_nodes(old: Seq<DomNode>, new: Seq<DomNode>, parent: NodeId, child: NodeId, i: int)
    requires
        appended(old, new, parent, child),
        0 <= i < old.len(),
        i != parent.0,
        i != child.0,
    ensures
        new.len() == old.len(),
        same_node(new[i], old[i]),
{
}

/// Every sensitive field is a form element (an `input`).
pub proof fn lemma_sensitive_is_form_element(e: ElementData)
    requires
        sensitive(e),
    ensures
        is_form_tag(e.tag_name@),
{
}

} // verus!
