//! What a page load takes from a parsed document before styling: the
//! title, the scripts, the stylesheets, the images and the hosts to
//! prefetch.
use vstd::prelude::*;
use crate::css::style_engine::{parse_url, url_value};
use crate::dom::{attr_get, node_at, DomNode, DomTree, NodeId, NodeType};
use crate::net::{parse_url_host, url_parse_host};
use crate::text::{
    all_ws, chars_of, has_prefix, is_blank, push_str, str_eq, str_is_empty, string_of, to_owned_string,
    trim, trimmed,
};

verus! {

/// Errors of the page load pipeline.
#[derive(Debug)]
pub enum PipelineError {
    Network(String),
    Parse(String),
    Layout(String),
}

/// A script of the page: inline source or the `src` of an external one.
#[derive(Debug, Clone)]
pub enum Script {
    Inline(String),
    External(String),
}

/// A stylesheet of the page: inline rules or the `href` of a linked one.
#[derive(Debug, Clone)]
pub enum Stylesheet {
    Inline(String),
    External(String),
}

/// A script or stylesheet source by its text: `(is_external, text)`.
pub open spec fn script_view(s: Script) -> (bool, Seq<char>) {
    match s {
        Script::Inline(c) => (false, c@),
        Script::External(u) => (true, u@),
    }
}

/// A stylesheet by its text: `(is_external, text)`.
pub open spec fn sheet_view(s: Stylesheet) -> (bool, Seq<char>) {
    match s {
        Stylesheet::Inline(c) => (false, c@),
        Stylesheet::External(u) => (true, u@),
    }
}

/// The element data of a node with tag `t`.
pub open spec fn is_tag(n: DomNode, t: Seq<char>) -> bool {
    n.node_type matches NodeType::Element(e) && e.tag_name@ == t
}

/// Attribute `k` of a node, when it is an element.
pub open spec fn node_attr(n: DomNode, k: Seq<char>) -> Option<Seq<char>> {
    match n.node_type {
        NodeType::Element(e) => attr_get(e.attributes@, k),
        _ => None,
    }
}

/// The text of the node `id` names, if it is a text node.
pub open spec fn text_at(all: Seq<DomNode>, id: NodeId) -> Option<Seq<char>> {
    match node_at(all, id) {
        Some(c) => match c.node_type {
            NodeType::Text(t) => Some(t@),
            _ => None,
        },
        None => None,
    }
}

/// The trimmed text of the first non-blank text child among `kids[j..]`.
pub open spec fn first_text_from(all: Seq<DomNode>, kids: Seq<NodeId>, j: int) -> Option<Seq<char>>
    decreases kids.len() - j,
{
    if j < 0 || j >= kids.len() {
        None
    } else {
        match text_at(all, kids[j]) {
            Some(t) => if !all_ws(t) {
                Some(trimmed(t))
            } else {
                first_text_from(all, kids, j + 1)
            },
            None => first_text_from(all, kids, j + 1),
        }
    }
}

/// The title found from node index `i` on: the first `title` element with
/// a non-blank text child gives its trimmed text.
pub open spec fn title_from(all: Seq<DomNode>, i: int) -> Option<Seq<char>>
    decreases all.len() - i,
{
    if i < 0 || i >= all.len() {
        None
    } else if is_tag(all[i], "title"@) && first_text_from(all, all[i].children@, 0) is Some {
        first_text_from(all, all[i].children@, 0)
    } else {
        title_from(all, i + 1)
    }
}

/// The concatenated text of the text children among `kids`.
pub open spec fn text_concat(all: Seq<DomNode>, kids: Seq<NodeId>) -> Seq<char>
    decreases kids.len(),
{
    if kids.len() == 0 {
        Seq::empty()
    } else {
        text_concat(all, kids.drop_last()) + match text_at(all, kids.last()) {
            Some(t) => t,
            None => Seq::empty(),
        }
    }
}

/// The script a node contributes, if any.
pub open spec fn script_of(all: Seq<DomNode>, n: DomNode) -> Seq<(bool, Seq<char>)> {
    if is_tag(n, "script"@) {
        match node_attr(n, "src"@) {
            Some(src) => seq![(true, src)],
            None => if text_concat(all, n.children@).len() > 0 {
                seq![(false, text_concat(all, n.children@))]
            } else {
                Seq::empty()
            },
        }
    } else {
        Seq::empty()
    }
}

/// The scripts of the first `k` nodes, in document order.
pub open spec fn scripts_upto(all: Seq<DomNode>, k: int) -> Seq<(bool, Seq<char>)>
    decreases k,
{
    if k <= 0 || k > all.len() {
        Seq::empty()
    } else {
        scripts_upto(all, k - 1) + script_of(all, all[k - 1])
    }
}

/// The stylesheet a node contributes, if any.
pub open spec fn sheet_of(all: Seq<DomNode>, n: DomNode) -> Seq<(bool, Seq<char>)> {
    if is_tag(n, "style"@) {
        if text_concat(all, n.children@).len() > 0 {
            seq![(false, text_concat(all, n.children@))]
        } else {
            Seq::empty()
        }
    } else if is_tag(n, "link"@) && node_attr(n, "rel"@) == Some("stylesheet"@) && node_attr(
        n,
        "href"@,
    ) is Some {
        seq![(true, node_attr(n, "href"@)->0)]
    } else {
        Seq::empty()
    }
}

/// The stylesheets of the first `k` nodes, in document order.
pub open spec fn sheets_upto(all: Seq<DomNode>, k: int) -> Seq<(bool, Seq<char>)>
    decreases k,
{
    if k <= 0 || k > all.len() {
        Seq::empty()
    } else {
        sheets_upto(all, k - 1) + sheet_of(all, all[k - 1])
    }
}

/// The image URLs a node contributes: an `img` element's `src`, then the
/// `url(...)` of any element's `style` attribute.
pub open spec fn images_of(n: DomNode) -> Seq<Seq<char>> {
    (if is_tag(n, "img"@) && node_attr(n, "src"@) is Some {
        seq![node_attr(n, "src"@)->0]
    } else {
        Seq::empty()
    }) + match node_attr(n, "style"@) {
        Some(st) => match url_value(st) {
            Some(u) => seq![u],
            None => Seq::empty(),
        },
        None => Seq::empty(),
    }
}

/// The image URLs of the first `k` nodes, in document order.
pub open spec fn images_upto(all: Seq<DomNode>, k: int) -> Seq<Seq<char>>
    decreases k,
{
    if k <= 0 || k > all.len() {
        Seq::empty()
    } else {
        images_upto(all, k - 1) + images_of(all[k - 1])
    }
}

/// `s` with every leading copy of `p` removed (`str::trim_start_matches`).
pub open spec fn strip_leading(s: Seq<char>, p: Seq<char>) -> Seq<char>
    decreases s.len(),
{
    if p.len() > 0 && has_prefix(s, p) {
        strip_leading(s.subrange(p.len() as int, s.len() as int), p)
    } else {
        s
    }
}

/// The host a `dns-prefetch` link names: the URL's host; nothing for a URL
/// without one; the text without leading `//` when it is not a URL.
pub open spec fn prefetch_host(href: Seq<char>) -> Seq<Seq<char>> {
    match url_parse_host(href) {
        Some(Some(h)) => seq![h],
        Some(None) => Seq::empty(),
        None => seq![strip_leading(href, "//"@)],
    }
}

/// The prefetch hosts a node contributes.
pub open spec fn prefetch_of(n: DomNode) -> Seq<Seq<char>> {
    if is_tag(n, "link"@) && node_attr(n, "rel"@) == Some("dns-prefetch"@) && node_attr(
        n,
        "href"@,
    ) is Some {
        prefetch_host(node_attr(n, "href"@)->0)
    } else {
        Seq::empty()
    }
}

/// The prefetch hosts of the first `k` nodes, in document order.
pub open spec fn prefetch_upto(all: Seq<DomNode>, k: int) -> Seq<Seq<char>>
    decreases k,
{
    if k <= 0 || k > all.len() {
        Seq::empty()
    } else {
        prefetch_upto(all, k - 1) + prefetch_of(all[k - 1])
    }
}

/// The views of a list of strings.
pub open spec fn string_views(v: Seq<String>) -> Seq<Seq<char>> {
    v.map_values(|s: String| s@)
}

/// The trimmed text of the first non-blank text child of `kids`.
fn first_text_child(dom: &DomTree, kids: &Vec<NodeId>) -> (r: Option<String>)
    ensures
        match r {
            Some(t) => first_text_from(dom@, kids@, 0) == Some(t@),
            None => first_text_from(dom@, kids@, 0) is None,
        },
{
    let mut j: usize = 0;
    while j < kids.len()
        invariant
            j <= kids@.len(),
            first_text_from(dom@, kids@, 0) == first_text_from(dom@, kids@, j as int),
        decreases kids@.len() - j,
    {
        match dom.get_node(kids[j]) {
            Some(child) => {
                if let NodeType::Text(text) = &child.node_type {
                    if !is_blank(text.as_str()) {
                        return Some(trim(text.as_str()));
                    }
                }
            },
            None => {},
        }
        j += 1;
    }
    None
}

/// The `<title>` text of a document: the trimmed text of the first
/// non-blank text child of the first `title` element that has one.
pub fn extract_title(dom: &DomTree) -> (r: Option<String>)
    ensures
        match r {
            Some(t) => title_from(dom@, 0) == Some(t@),
            None => title_from(dom@, 0) is None,
        },
{
    let nodes = dom.nodes();
    let mut i: usize = 0;
    while i < nodes.len()
        invariant
            nodes@ == dom@,
            i <= dom@.len(),
            title_from(dom@, 0) == title_from(dom@, i as int),
        decreases dom@.len() - i,
    {
        if let NodeType::Element(e) = &nodes[i].node_type {
            if str_eq(e.tag_name.as_str(), "title") {
                match first_text_child(dom, &nodes[i].children) {
                    Some(t) => {
                        return Some(t);
                    },
                    None => {},
                }
            }
        }
        i += 1;
    }
    None
}

/// The concatenated text of the text children of `kids`.
fn children_text(dom: &DomTree, kids: &Vec<NodeId>) -> (r: String)
    ensures
        r@ == text_concat(dom@, kids@),
{
    let mut content: String = string_of(&[]);
    let mut j: usize = 0;
    while j < kids.len()
        invariant
            j <= kids@.len(),
            content@ == text_concat(dom@, kids@.take(j as int)),
        decreases kids@.len() - j,
    {
        assert(kids@.take(j + 1).drop_last() =~= kids@.take(j as int));
        match dom.get_node(kids[j]) {
            Some(child) => {
                if let NodeType::Text(text) = &child.node_type {
                    push_str(&mut content, text.as_str());
                }
            },
            None => {},
        }
        j += 1;
        assert(content@ =~= text_concat(dom@, kids@.take(j as int)));
    }
    assert(kids@.take(kids@.len() as int) =~= kids@);
    content
}

/// The scripts of a document in document order: the `src` of each
/// `script` element that has one, else its non-empty inline text.
pub fn extract_scripts(dom: &DomTree) -> (r: Vec<Script>)
    ensures
        r@.map_values(|s: Script| script_view(s)) == scripts_upto(dom@, dom@.len() as int),
{
    let nodes = dom.nodes();
    let mut out: Vec<Script> = Vec::new();
    let mut i: usize = 0;
    while i < nodes.len()
        invariant
            nodes@ == dom@,
            i <= dom@.len(),
            out@.map_values(|s: Script| script_view(s)) == scripts_upto(dom@, i as int),
        decreases dom@.len() - i,
    {
        let ghost before = out@;
        let ghost n = dom@[i as int];
        if let NodeType::Element(e) = &nodes[i].node_type {
            if str_eq(e.tag_name.as_str(), "script") {
                match e.get_attribute("src") {
                    Some(src) => {
                        out.push(Script::External(to_owned_string(src)));
                    },
                    None => {
                        let content = children_text(dom, &nodes[i].children);
                        if !str_is_empty(content.as_str()) {
                            out.push(Script::Inline(content));
                        }
                    },
                }
            }
        }
        assert(out@.map_values(|s: Script| script_view(s)) =~= before.map_values(
            |s: Script| script_view(s),
        ) + script_of(dom@, n));
        i += 1;
        assert(out@.map_values(|s: Script| script_view(s)) =~= scripts_upto(dom@, i as int));
    }
    out
}

/// The stylesheets of a document in document order: the non-empty text of
/// each `style` element, and the `href` of each `link rel="stylesheet"`.
pub fn extract_stylesheets(dom: &DomTree) -> (r: Vec<Stylesheet>)
    ensures
        r@.map_values(|s: Stylesheet| sheet_view(s)) == sheets_upto(dom@, dom@.len() as int),
{
    let nodes = dom.nodes();
    let mut out: Vec<Stylesheet> = Vec::new();
    let mut i: usize = 0;
    while i < nodes.len()
        invariant
            nodes@ == dom@,
            i <= dom@.len(),
            out@.map_values(|s: Stylesheet| sheet_view(s)) == sheets_upto(dom@, i as int),
        decreases dom@.len() - i,
    {
        let ghost before = out@;
        let ghost n = dom@[i as int];
        if let NodeType::Element(e) = &nodes[i].node_type {
            if str_eq(e.tag_name.as_str(), "style") {
                let content = children_text(dom, &nodes[i].children);
                if !str_is_empty(content.as_str()) {
                    out.push(Stylesheet::Inline(content));
                }
            } else if str_eq(e.tag_name.as_str(), "link") {
                match e.get_attribute("rel") {
                    Some(rel) => {
                        if str_eq(rel, "stylesheet") {
                            match e.get_attribute("href") {
                                Some(href) => {
                                    out.push(Stylesheet::External(to_owned_string(href)));
                                },
                                None => {},
                            }
                        }
                    },
                    None => {},
                }
            }
        }
        proof {
            reveal_strlit("style");
            reveal_strlit("link");
        }
        assert(out@.map_values(|s: Stylesheet| sheet_view(s)) =~= before.map_values(
            |s: Stylesheet| sheet_view(s),
        ) + sheet_of(dom@, n));
        i += 1;
        assert(out@.map_values(|s: Stylesheet| sheet_view(s)) =~= sheets_upto(dom@, i as int));
    }
    out
}

/// The image URLs of a document in document order: each `img` element's
/// `src`, and the `url(...)` of each element's `style` attribute.
pub fn extract_images(dom: &DomTree) -> (r: Vec<String>)
    ensures
        string_views(r@) == images_upto(dom@, dom@.len() as int),
{
    let nodes = dom.nodes();
    let mut out: Vec<String> = Vec::new();
    let mut i: usize = 0;
    while i < nodes.len()
        invariant
            nodes@ == dom@,
            i <= dom@.len(),
            string_views(out@) == images_upto(dom@, i as int),
        decreases dom@.len() - i,
    {
        let ghost before = out@;
        let ghost n = dom@[i as int];
        if let NodeType::Element(e) = &nodes[i].node_type {
            if str_eq(e.tag_name.as_str(), "img") {
                match e.get_attribute("src") {
                    Some(src) => {
                        out.push(to_owned_string(src));
                    },
                    None => {},
                }
            }
            let ghost mid = out@;
            match e.get_attribute("style") {
                Some(style) => {
                    match parse_url(style) {
                        Some(u) => {
                            out.push(u);
                        },
                        None => {},
                    }
                },
                None => {},
            }
            assert(string_views(out@) =~= string_views(before) + images_of(n));
        } else {
            assert(string_views(out@) =~= string_views(before) + images_of(n));
        }
        i += 1;
        assert(string_views(out@) =~= images_upto(dom@, i as int));
    }
    out
}

/// `str::trim_start_matches("//")`.
fn strip_leading_slashes(s: &str) -> (r: String)
    ensures
        r@ == strip_leading(s@, "//"@),
{
    let v = chars_of(s);
    let n = v.len();
    let mut k: usize = 0;
    proof {
        reveal_strlit("//");
        assert(v@.subrange(0, n as int) =~= v@);
    }
    while n - k >= 2 && v[k] == '/' && v[k + 1] == '/'
        invariant
            v@ == s@,
            n == v@.len(),
            k <= n,
            strip_leading(s@, "//"@) == strip_leading(v@.subrange(k as int, n as int), "//"@),
        decreases n - k,
    {
        proof {
            reveal_strlit("//");
        }
        let ghost t = v@.subrange(k as int, n as int);
        assert(t.subrange(0, 2) =~= "//"@);
        assert(t.subrange(2, t.len() as int) =~= v@.subrange(k + 2, n as int));
        k += 2;
    }
    proof {
        let t = v@.subrange(k as int, n as int);
        if has_prefix(t, "//"@) {
            assert(t.subrange(0, 2) =~= "//"@);
            assert(t.subrange(0, 2)[0] == t[0] && t.subrange(0, 2)[1] == t[1]);
        }
    }
    crate::text::sub_string(&v, k, n)
}

/// The hosts named by `link rel="dns-prefetch"` elements, in document
/// order (see `prefetch_host`).
pub fn extract_dns_prefetch(dom: &DomTree) -> (r: Vec<String>)
    ensures
        string_views(r@) == prefetch_upto(dom@, dom@.len() as int),
{
    let nodes = dom.nodes();
    let mut out: Vec<String> = Vec::new();
    let mut i: usize = 0;
    while i < nodes.len()
        invariant
            nodes@ == dom@,
            i <= dom@.len(),
            string_views(out@) == prefetch_upto(dom@, i as int),
        decreases dom@.len() - i,
    {
        let ghost before = out@;
        let ghost n = dom@[i as int];
        if let NodeType::Element(e) = &nodes[i].node_type {
            if str_eq(e.tag_name.as_str(), "link") {
                match e.get_attribute("rel") {
                    Some(rel) => {
                        if str_eq(rel, "dns-prefetch") {
                            match e.get_attribute("href") {
                                Some(href) => {
                                    match parse_url_host(href) {
                                        Some(Some(h)) => {
                                            out.push(h);
                                        },
                                        Some(None) => {},
                                        None => {
                                            out.push(strip_leading_slashes(href));
                                        },
                                    }
                                },
                                None => {},
                            }
                        }
                    },
                    None => {},
                }
            }
        }
        assert(string_views(out@) =~= string_views(before) + prefetch_of(n));
        i += 1;
        assert(string_views(out@) =~= prefetch_upto(dom@, i as int));
    }
    out
}

} // verus!
