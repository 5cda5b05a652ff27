//! Element-level queries that CSS selector matching asks of the DOM:
//! tree navigation (parent, siblings, first child), identity tests (tag,
//! id, classes, attributes) and dynamic pseudo-class state.
use vstd::prelude::*;
use crate::dom::{attr_get, class_tokens, node_at, DomNode, DomTree, ElementData, NodeId, NodeType};
use crate::text::{chars_of, str_eq};

verus! {

/// Dynamic (non tree-structural) pseudo-classes.
#[derive(Debug, Clone, Copy, PartialEq, Eq, Structural)]
pub enum PseudoClass {
    Hover,
    Focus,
    Active,
    Any,
}

/// Which element is hovered, focused and active.
#[derive(Debug, Clone, Copy, PartialEq, Eq, Default)]
pub struct PseudoClassState {
    pub hovered: Option<NodeId>,
    pub focused: Option<NodeId>,
    pub active: Option<NodeId>,
}

/// How identifiers are compared.
#[derive(Debug, Clone, Copy, PartialEq, Eq, Structural)]
pub enum CaseSensitivity {
    CaseSensitive,
    AsciiCaseInsensitive,
}

/// The pseudo-class a `:name` selector denotes; unknown names mean `Any`,
/// which never matches.
pub open spec fn pseudo_class_of(name: Seq<char>) -> PseudoClass {
    if name == "hover"@ {
        PseudoClass::Hover
    } else if name == "focus"@ {
        PseudoClass::Focus
    } else if name == "active"@ {
        PseudoClass::Active
    } else {
        PseudoClass::Any
    }
}

/// How a pseudo-class is written in a selector.
pub open spec fn pseudo_css(p: PseudoClass) -> Seq<char> {
    match p {
        PseudoClass::Hover => ":hover"@,
        PseudoClass::Focus => ":focus"@,
        PseudoClass::Active => ":active"@,
        PseudoClass::Any => ":any"@,
    }
}

/// The pseudo-class parsed from a name is the one written `:` + that name
/// (or `Any`, for a name no pseudo-class has), and reading back the name
/// of any pseudo-class gives that pseudo-class: so `:focus` selects the
/// focused element, `:hover` the hovered one and `:active` the active one.
pub proof fn lemma_pseudo_class_names(name: Seq<char>, p: PseudoClass)
    ensures
        pseudo_class_of(name) == PseudoClass::Any || pseudo_css(pseudo_class_of(name)) == ":"@ + name,
        pseudo_class_of(pseudo_css(p).drop_first()) == p,
{
    reveal_strlit(":hover");
    reveal_strlit(":focus");
    reveal_strlit(":active");
    reveal_strlit(":any");
    reveal_strlit("hover");
    reveal_strlit("focus");
    reveal_strlit("active");
    reveal_strlit("any");
    reveal_strlit(":");
    assert(":hover"@ =~= ":"@ + "hover"@);
    assert(":focus"@ =~= ":"@ + "focus"@);
    assert(":active"@ =~= ":"@ + "active"@);
    assert(":hover"@.drop_first() =~= "hover"@);
    assert(":focus"@.drop_first() =~= "focus"@);
    assert(":active"@.drop_first() =~= "active"@);
    assert(":any"@.drop_first() =~= "any"@);
    assert("hover"@.len() == 5 && "focus"@.len() == 5 && "active"@.len() == 6 && "any"@.len() == 3);
    assert("focus"@[0] != "hover"@[0]);
}

/// Map a pseudo-class name to the pseudo-class it denotes.
pub fn parse_non_ts_pseudo_class(name: &str) -> (r: PseudoClass)
    ensures
        r == pseudo_class_of(name@),
{
    if str_eq(name, "hover") {
        PseudoClass::Hover
    } else if str_eq(name, "focus") {
        PseudoClass::Focus
    } else if str_eq(name, "active") {
        PseudoClass::Active
    } else {
        PseudoClass::Any
    }
}

/// ASCII lowercase of one character.
pub open spec fn ascii_lower(c: char) -> char {
    if 'A' <= c <= 'Z' {
        ((c as u32) + 32) as char
    } else {
        c
    }
}

/// `str::eq_ignore_ascii_case`.
pub open spec fn eq_ascii_ci(a: Seq<char>, b: Seq<char>) -> bool {
    a.len() == b.len() && forall|i: int| 0 <= i < a.len() ==> ascii_lower(#[trigger] a[i]) == ascii_lower(b[i])
}

/// Identifier comparison under a case sensitivity.
pub open spec fn ident_eq(a: Seq<char>, b: Seq<char>, cs: CaseSensitivity) -> bool {
    match cs {
        CaseSensitivity::CaseSensitive => a == b,
        CaseSensitivity::AsciiCaseInsensitive => eq_ascii_ci(a, b),
    }
}

pub(crate) fn ascii_lower_char(c: char) -> (r: char)
    ensures
        r == ascii_lower(c),
{
    if 'A' <= c && c <= 'Z' {
        let u = (c as u32) + 32;
        assert(0x61 <= u <= 0x7A);
        char_from_ascii(u)
    } else {
        c
    }
}

/// The character with code point `u`, for ASCII lowercase letters.
fn char_from_ascii(u: u32) -> (r: char)
    requires
        0x61 <= u <= 0x7A,
    ensures
        r == u as char,
        r as u32 == u,
{
    let b = u as u8;
    b as char
}

/// `str::eq_ignore_ascii_case`.
pub fn eq_ignore_ascii_case(a: &str, b: &str) -> (r: bool)
    ensures
        r == eq_ascii_ci(a@, b@),
{
    let av = chars_of(a);
    let bv = chars_of(b);
    if av.len() != bv.len() {
        return false;
    }
    let mut i: usize = 0;
    while i < av.len()
        invariant
            av@ == a@,
            bv@ == b@,
            av@.len() == bv@.len(),
            i <= av@.len(),
            forall|k: int| 0 <= k < i ==> ascii_lower(#[trigger] av@[k]) == ascii_lower(bv@[k]),
        decreases av@.len() - i,
    {
        if ascii_lower_char(av[i]) != ascii_lower_char(bv[i]) {
            return false;
        }
        i += 1;
    }
    true
}

/// Compare two identifiers under a case sensitivity.
pub fn ident_matches(a: &str, b: &str, cs: CaseSensitivity) -> (r: bool)
    ensures
        r == ident_eq(a@, b@, cs),
{
    match cs {
        CaseSensitivity::CaseSensitive => str_eq(a, b),
        CaseSensitivity::AsciiCaseInsensitive => eq_ignore_ascii_case(a, b),
    }
}

/// Whether id `c` names an element node.
pub open spec fn is_elem_id(nodes: Seq<DomNode>, c: NodeId) -> bool {
    node_at(nodes, c) matches Some(n) && n.node_type is Element
}

/// Index of the first occurrence of `me` in `ch` at or after `k`.
pub open spec fn index_from(ch: Seq<NodeId>, me: NodeId, k: int) -> Option<int>
    decreases ch.len() - k,
{
    if k < 0 || k >= ch.len() {
        None
    } else if ch[k] == me {
        Some(k)
    } else {
        index_from(ch, me, k + 1)
    }
}

/// The last element id among `ch[0..k)`.
pub open spec fn last_elem_before(nodes: Seq<DomNode>, ch: Seq<NodeId>, k: int) -> Option<NodeId>
    decreases k,
{
    if k <= 0 || k > ch.len() {
        None
    } else if is_elem_id(nodes, ch[k - 1]) {
        Some(ch[k - 1])
    } else {
        last_elem_before(nodes, ch, k - 1)
    }
}

/// The first element id among `ch[k..]`.
pub open spec fn first_elem_from(nodes: Seq<DomNode>, ch: Seq<NodeId>, k: int) -> Option<NodeId>
    decreases ch.len() - k,
{
    if k < 0 || k >= ch.len() {
        None
    } else if is_elem_id(nodes, ch[k]) {
        Some(ch[k])
    } else {
        first_elem_from(nodes, ch, k + 1)
    }
}

/// Whether a node is an element or a non-empty text node (what makes a
/// parent non-`:empty`).
pub open spec fn counts_for_empty(nodes: Seq<DomNode>, c: NodeId) -> bool {
    match node_at(nodes, c) {
        Some(n) => match n.node_type {
            NodeType::Element(_) => true,
            NodeType::Text(t) => t@.len() > 0,
            _ => false,
        },
        None => false,
    }
}

/// `ancestor` is `node` or is reached from it by following at most `fuel`
/// parent links.
pub open spec fn reaches(nodes: Seq<DomNode>, node: NodeId, ancestor: NodeId, fuel: nat) -> bool
    decreases fuel,
{
    if node == ancestor {
        true
    } else if fuel == 0 {
        false
    } else {
        match node_at(nodes, node) {
            Some(n) => match n.parent {
                Some(p) => reaches(nodes, p, ancestor, (fuel - 1) as nat),
                None => false,
            },
            None => false,
        }
    }
}

/// Whether `node` is `ancestor` or one of its descendants, following parent
/// links up from `node` (at most one link per node of the tree).
pub fn is_descendant(tree: &DomTree, node: NodeId, ancestor: NodeId) -> (r: bool)
    ensures
        r == reaches(tree@, node, ancestor, tree@.len()),
{
    let mut cur = node;
    let mut fuel: usize = tree.node_count();
    while fuel > 0
        invariant
            fuel <= tree@.len(),
            reaches(tree@, node, ancestor, tree@.len()) == reaches(tree@, cur, ancestor, fuel as nat),
        decreases fuel,
    {
        if cur == ancestor {
            return true;
        }
        match tree.get_node(cur) {
            Some(n) => match n.parent {
                Some(p) => {
                    cur = p;
                },
                None => {
                    return false;
                },
            },
            None => {
                return false;
            },
        }
        fuel -= 1;
    }
    cur == ancestor
}

/// An element of a DOM tree, as seen by selector matching.
#[derive(Debug, Clone, Copy)]
pub struct DomElement<'a> {
    pub tree: &'a DomTree,
    pub id: NodeId,
}

impl<'a> DomElement<'a> {
    /// The element names a node of its tree.
    pub open spec fn valid(&self) -> bool {
        node_at(self.tree@, self.id) is Some
    }

    /// The node this element refers to.
    pub open spec fn node_spec(&self) -> DomNode {
        node_at(self.tree@, self.id)->0
    }

    /// The element data, when the node is an element.
    pub open spec fn data_spec(&self) -> Option<ElementData> {
        match self.node_spec().node_type {
            NodeType::Element(e) => Some(e),
            _ => None,
        }
    }

    /// The DOM node this element refers to.
    pub fn node(&self) -> (r: &'a DomNode)
        requires
            self.valid(),
        ensures
            *r == self.node_spec(),
    {
        self.tree.get_node(self.id).unwrap()
    }

    /// The parent node, when it is an element.
    pub fn parent_element(&self) -> (r: Option<DomElement<'a>>)
        requires
            self.valid(),
        ensures
            match self.node_spec().parent {
                Some(p) => if is_elem_id(self.tree@, p) {
                    r == Some(DomElement { tree: self.tree, id: p })
                } else {
                    r is None
                },
                None => r is None,
            },
    {
        let parent_id = match self.node().parent {
            Some(p) => p,
            None => return None,
        };
        let parent = match self.tree.get_node(parent_id) {
            Some(n) => n,
            None => return None,
        };
        if let NodeType::Element(_) = parent.node_type {
            Some(DomElement { tree: self.tree, id: parent_id })
        } else {
            None
        }
    }

    /// Always false: the DOM has no shadow roots.
    pub fn parent_node_is_shadow_root(&self) -> (r: bool)
        ensures
            !r,
    {
        false
    }

    /// Always `None`: the DOM has no shadow hosts.
    pub fn containing_shadow_host(&self) -> (r: Option<DomElement<'a>>)
        ensures
            r is None,
    {
        None
    }

    /// Always false: pseudo-elements are not represented.
    pub fn is_pseudo_element(&self) -> (r: bool)
        ensures
            !r,
    {
        false
    }

    /// Whether `c` names an element node of the tree.
    fn child_is_element(&self, c: NodeId) -> (r: bool)
        ensures
            r == is_elem_id(self.tree@, c),
    {
        match self.tree.get_node(c) {
            Some(n) => match n.node_type {
                NodeType::Element(_) => true,
                _ => false,
            },
            None => false,
        }
    }

    /// The closest preceding element sibling under the parent.
    #[verifier::loop_isolation(false)]
    pub fn prev_sibling_element(&self) -> (r: Option<DomElement<'a>>)
        requires
            self.valid(),
        ensures
            match self.node_spec().parent {
                Some(p) => match node_at(self.tree@, p) {
                    Some(pn) => match index_from(pn.children@, self.id, 0) {
                        Some(k) => match last_elem_before(self.tree@, pn.children@, k) {
                            Some(s) => r == Some(DomElement { tree: self.tree, id: s }),
                            None => r is None,
                        },
                        None => r is None,
                    },
                    None => r is None,
                },
                None => r is None,
            },
    {
        let parent_id = match self.node().parent {
            Some(p) => p,
            None => return None,
        };
        let parent = match self.tree.get_node(parent_id) {
            Some(n) => n,
            None => return None,
        };
        let ch = &parent.children;
        let mut prev: Option<NodeId> = None;
        let mut i: usize = 0;
        while i < ch.len()
            invariant
                i <= ch@.len(),
                index_from(ch@, self.id, 0) == index_from(ch@, self.id, i as int),
                prev == last_elem_before(self.tree@, ch@, i as int),
            decreases ch@.len() - i,
        {
            let c = ch[i];
            if c == self.id {
                assert(index_from(ch@, self.id, i as int) == Some(i as int));
                return match prev {
                    Some(s) => Some(DomElement { tree: self.tree, id: s }),
                    None => None,
                };
            }
            if self.child_is_element(c) {
                prev = Some(c);
            }
            i += 1;
        }
        None
    }

    /// The closest following element sibling under the parent.
    #[verifier::loop_isolation(false)]
    pub fn next_sibling_element(&self) -> (r: Option<DomElement<'a>>)
        requires
            self.valid(),
        ensures
            match self.node_spec().parent {
                Some(p) => match node_at(self.tree@, p) {
                    Some(pn) => match index_from(pn.children@, self.id, 0) {
                        Some(k) => match first_elem_from(self.tree@, pn.children@, k + 1) {
                            Some(s) => r == Some(DomElement { tree: self.tree, id: s }),
                            None => r is None,
                        },
                        None => r is None,
                    },
                    None => r is None,
                },
                None => r is None,
            },
    {
        let parent_id = match self.node().parent {
            Some(p) => p,
            None => return None,
        };
        let parent = match self.tree.get_node(parent_id) {
            Some(n) => n,
            None => return None,
        };
        let ch = &parent.children;
        let mut i: usize = 0;
        while i < ch.len()
            invariant
                i <= ch@.len(),
                index_from(ch@, self.id, 0) == index_from(ch@, self.id, i as int),
            decreases ch@.len() - i,
        {
            if ch[i] == self.id {
                assert(index_from(ch@, self.id, i as int) == Some(i as int));
                return self.first_element_at(ch, i + 1);
            }
            i += 1;
        }
        None
    }

    /// The first element among `ch[k..]`.
    fn first_element_at(&self, ch: &Vec<NodeId>, k: usize) -> (r: Option<DomElement<'a>>)
        requires
            k <= ch@.len(),
        ensures
            match first_elem_from(self.tree@, ch@, k as int) {
                Some(s) => r == Some(DomElement { tree: self.tree, id: s }),
                None => r is None,
            },
    {
        let mut i = k;
        while i < ch.len()
            invariant
                k <= i <= ch@.len(),
                first_elem_from(self.tree@, ch@, k as int) == first_elem_from(
                    self.tree@,
                    ch@,
                    i as int,
                ),
            decreases ch@.len() - i,
        {
            if self.child_is_element(ch[i]) {
                return Some(DomElement { tree: self.tree, id: ch[i] });
            }
            i += 1;
        }
        None
    }

    /// The first child that is an element.
    pub fn first_element_child(&self) -> (r: Option<DomElement<'a>>)
        requires
            self.valid(),
        ensures
            match first_elem_from(self.tree@, self.node_spec().children@, 0) {
                Some(s) => r == Some(DomElement { tree: self.tree, id: s }),
                None => r is None,
            },
    {
        self.first_element_at(&self.node().children, 0)
    }

    /// Every element is an HTML element in an HTML document.
    pub fn is_html_element_in_html_document(&self) -> (r: bool)
        ensures
            r,
    {
        true
    }

    /// Whether the element's tag name is `local_name`.
    pub fn has_local_name(&self, local_name: &str) -> (r: bool)
        requires
            self.valid(),
        ensures
            r == (self.data_spec() matches Some(e) && e.tag_name@ == local_name@),
    {
        match &self.node().node_type {
            NodeType::Element(data) => str_eq(data.tag_name.as_str(), local_name),
            _ => false,
        }
    }

    /// Every namespace matches.
    pub fn has_namespace(&self, ns: &str) -> (r: bool)
        ensures
            r,
    {
        true
    }

    /// Whether both nodes are elements with the same tag name.
    pub fn is_same_type(&self, other: &DomElement) -> (r: bool)
        requires
            self.valid(),
            other.valid(),
        ensures
            r == (self.data_spec() matches Some(a) && other.data_spec() matches Some(b)
                && a.tag_name@ == b.tag_name@),
    {
        match (&self.node().node_type, &other.node().node_type) {
            (NodeType::Element(a), NodeType::Element(b)) => str_eq(
                a.tag_name.as_str(),
                b.tag_name.as_str(),
            ),
            _ => false,
        }
    }

    /// Dynamic pseudo-class state: hovered, focused or active is this
    /// element; `Any` never matches.
    pub fn match_non_ts_pseudo_class(&self, pc: PseudoClass, state: &PseudoClassState) -> (r: bool)
        ensures
            r == match pc {
                PseudoClass::Hover => state.hovered == Some(self.id),
                PseudoClass::Focus => state.focused == Some(self.id),
                PseudoClass::Active => state.active == Some(self.id),
                PseudoClass::Any => false,
            },
    {
        match pc {
            PseudoClass::Hover => state.hovered == Some(self.id),
            PseudoClass::Focus => state.focused == Some(self.id),
            PseudoClass::Active => state.active == Some(self.id),
            PseudoClass::Any => false,
        }
    }

    /// Pseudo-elements never match.
    pub fn match_pseudo_element(&self) -> (r: bool)
        ensures
            !r,
    {
        false
    }

    /// An `<a>` element with an `href` attribute.
    pub fn is_link(&self) -> (r: bool)
        requires
            self.valid(),
        ensures
            r == (self.data_spec() matches Some(e) && e.tag_name@ == "a"@ && attr_get(
                e.attributes@,
                "href"@,
            ) is Some),
    {
        match &self.node().node_type {
            NodeType::Element(data) => str_eq(data.tag_name.as_str(), "a") && data.get_attribute(
                "href",
            ).is_some(),
            _ => false,
        }
    }

    /// There are no slot elements.
    pub fn is_html_slot_element(&self) -> (r: bool)
        ensures
            !r,
    {
        false
    }

    /// Whether the element's `id` attribute equals `id`.
    pub fn has_id(&self, id: &str, case_sensitivity: CaseSensitivity) -> (r: bool)
        requires
            self.valid(),
        ensures
            r == (self.data_spec() matches Some(e) && attr_get(e.attributes@, "id"@) matches Some(v)
                && ident_eq(v, id@, case_sensitivity)),
    {
        match &self.node().node_type {
            NodeType::Element(data) => match data.id() {
                Some(elem_id) => ident_matches(elem_id, id, case_sensitivity),
                None => false,
            },
            _ => false,
        }
    }

    /// Whether one of the element's class tokens equals `name`.
    #[verifier::loop_isolation(false)]
    pub fn has_class(&self, name: &str, case_sensitivity: CaseSensitivity) -> (r: bool)
        requires
            self.valid(),
        ensures
            r == (self.data_spec() matches Some(e) && exists|k: int|
                0 <= k < class_tokens(e).len() && ident_eq(
                    #[trigger] class_tokens(e)[k],
                    name@,
                    case_sensitivity,
                )),
    {
        match &self.node().node_type {
            NodeType::Element(data) => {
                assert(self.data_spec() == Some(*data));
                let classes = data.classes();
                let mut k: usize = 0;
                while k < classes.len()
                    invariant
                        classes@.len() == class_tokens(*data).len(),
                        forall|m: int|
                            0 <= m < classes@.len() ==> (#[trigger] classes@[m])@ == class_tokens(
                                *data,
                            )[m],
                        k <= classes@.len(),
                        forall|m: int|
                            0 <= m < k ==> !ident_eq(
                                #[trigger] class_tokens(*data)[m],
                                name@,
                                case_sensitivity,
                            ),
                    decreases classes@.len() - k,
                {
                    if ident_matches(classes[k], name, case_sensitivity) {
                        assert(ident_eq(class_tokens(*data)[k as int], name@, case_sensitivity));
                        assert(exists|j: int|
                            0 <= j < class_tokens(*data).len() && ident_eq(
                                #[trigger] class_tokens(*data)[j],
                                name@,
                                case_sensitivity,
                            ));
                        assert(self.data_spec() matches Some(e) && e == *data);
                        assert(self.data_spec() matches Some(e) && exists|j: int|
                            0 <= j < class_tokens(e).len() && ident_eq(
                                #[trigger] class_tokens(e)[j],
                                name@,
                                case_sensitivity,
                            ));
                        return true;
                    }
                    k += 1;
                }
                false
            },
            _ => false,
        }
    }

    /// Shadow parts are not supported.
    pub fn imported_part(&self) -> (r: Option<String>)
        ensures
            r is None,
    {
        None
    }

    /// Shadow parts are not supported.
    pub fn is_part(&self) -> (r: bool)
        ensures
            !r,
    {
        false
    }

    /// `:empty`: no child is an element or a non-empty text node.
    pub fn is_empty(&self) -> (r: bool)
        requires
            self.valid(),
        ensures
            r == !exists|k: int|
                0 <= k < self.node_spec().children@.len() && counts_for_empty(
                    self.tree@,
                    #[trigger] self.node_spec().children@[k],
                ),
    {
        let ch = &self.node().children;
        let mut k: usize = 0;
        while k < ch.len()
            invariant
                *ch == self.node_spec().children,
                k <= ch@.len(),
                forall|m: int| 0 <= m < k ==> !counts_for_empty(self.tree@, #[trigger] ch@[m]),
            decreases ch@.len() - k,
        {
            let counts = match self.tree.get_node(ch[k]) {
                Some(child) => match &child.node_type {
                    NodeType::Element(_) => true,
                    NodeType::Text(t) => chars_of(t.as_str()).len() > 0,
                    _ => false,
                },
                None => false,
            };
            if counts {
                return false;
            }
            k += 1;
        }
        true
    }

    /// `:root`: the parent is the document node.
    pub fn is_root(&self) -> (r: bool)
        requires
            self.valid(),
        ensures
            r == (self.node_spec().parent matches Some(p) && node_at(self.tree@, p) matches Some(
                pn,
            ) && pn.node_type is Document),
    {
        if let Some(parent_id) = self.node().parent {
            if let Some(parent) = self.tree.get_node(parent_id) {
                return match parent.node_type {
                    NodeType::Document => true,
                    _ => false,
                };
            }
        }
        false
    }

    /// The value of attribute `local_name`, which attribute selectors test.
    pub fn attr_value(&self, local_name: &str) -> (r: Option<&'a str>)
        requires
            self.valid(),
        ensures
            match r {
                Some(v) => self.data_spec() matches Some(e) && attr_get(e.attributes@, local_name@)
                    == Some(v@),
                None => !(self.data_spec() matches Some(e) && attr_get(
                    e.attributes@,
                    local_name@,
                ) is Some),
            },
    {
        match &self.node().node_type {
            NodeType::Element(data) => data.get_attribute(local_name),
            _ => None,
        }
    }

    /// Custom states are not supported.
    pub fn has_custom_state(&self) -> (r: bool)
        ensures
            !r,
    {
        false
    }
}

} // verus!
