//! The decisions of a page load between fetching the document and styling
//! it: which resources to fetch, the texts of the author stylesheets and of
//! the scripts, whether scripts run, and the page title.
use vstd::prelude::*;
use crate::dom::DomTree;
use crate::page::{extract_title, script_view, sheet_view, title_from, PipelineError, Script, Stylesheet};
use crate::text::{str_eq, to_owned_string};

verus! {

/// What `Url::join` gives for `href` against the page address `base`, as
/// text; `None` where `base` is no URL or the join fails.
pub uninterp spec fn url_join(base: Seq<char>, href: Seq<char>) -> Option<Seq<char>>;

/// What `String::from_utf8_lossy` makes of `bytes`.
pub uninterp spec fn utf8_lossy(bytes: Seq<u8>) -> Seq<char>;

/// `Url::parse` of the page address, then `Url::join` of `href` on it,
/// serialized. Claimed: the result is `url_join` of the two texts.
#[verifier::external_body]
pub(crate) fn join_url(base: &str, href: &str) -> (r: Option<String>)
    ensures
        match r {
            Some(u) => url_join(base@, href@) == Some(u@),
            None => url_join(base@, href@) is None,
        },
{
    match url::Url::parse(base) {
        Ok(b) => match b.join(href) {
            Ok(u) => Some(u.to_string()),
            Err(_) => None,
        },
        Err(_) => None,
    }
}

/// `String::from_utf8_lossy`, owned. Claimed: the result is `utf8_lossy`
/// of the bytes.
#[verifier::external_body]
pub(crate) fn lossy_text(bytes: &[u8]) -> (r: String)
    ensures
        r@ == utf8_lossy(bytes@),
{
    String::from_utf8_lossy(bytes).to_string()
}

/// The joined addresses of the external sources among `srcs`, in order;
/// a source whose address does not join is skipped.
pub open spec fn joined_externals(base: Seq<char>, srcs: Seq<(bool, Seq<char>)>) -> Seq<Seq<char>>
    decreases srcs.len(),
{
    if srcs.len() == 0 {
        Seq::empty()
    } else {
        let prev = joined_externals(base, srcs.drop_last());
        let last = srcs.last();
        if last.0 {
            match url_join(base, last.1) {
                Some(u) => prev.push(u),
                None => prev,
            }
        } else {
            prev
        }
    }
}

/// Image addresses as external sources.
pub open spec fn image_sources(images: Seq<String>) -> Seq<(bool, Seq<char>)> {
    images.map_values(|s: String| (true, s@))
}

/// Stylesheets by their views.
pub open spec fn sheet_views(sheets: Seq<Stylesheet>) -> Seq<(bool, Seq<char>)> {
    sheets.map_values(|s: Stylesheet| sheet_view(s))
}

/// Scripts by their views.
pub open spec fn script_views(scripts: Seq<Script>) -> Seq<(bool, Seq<char>)> {
    scripts.map_values(|s: Script| script_view(s))
}

/// The addresses a page load fetches, in order: linked stylesheets, then
/// external scripts, then images, each joined against the page address.
pub open spec fn asset_list(
    base: Seq<char>,
    sheets: Seq<Stylesheet>,
    scripts: Seq<Script>,
    images: Seq<String>,
) -> Seq<Seq<char>> {
    joined_externals(base, sheet_views(sheets)) + joined_externals(base, script_views(scripts))
        + joined_externals(base, image_sources(images))
}

/// The body fetched for address `k`: the last entry of `res` under that
/// address.
pub open spec fn resource_of(res: Seq<(String, Vec<u8>)>, k: Seq<char>) -> Option<Seq<u8>>
    decreases res.len(),
{
    if res.len() == 0 {
        None
    } else if res.last().0@ == k {
        Some(res.last().1@)
    } else {
        resource_of(res.drop_last(), k)
    }
}

/// The text of one source: inline text as it stands; an external one as
/// the body fetched for its joined address, decoded; none where the
/// address does not join or nothing was fetched for it.
pub open spec fn source_text(
    base: Seq<char>,
    res: Seq<(String, Vec<u8>)>,
    src: (bool, Seq<char>),
) -> Option<Seq<char>> {
    if !src.0 {
        Some(src.1)
    } else {
        match url_join(base, src.1) {
            Some(u) => match resource_of(res, u) {
                Some(b) => Some(utf8_lossy(b)),
                None => None,
            },
            None => None,
        }
    }
}

/// The texts of the sources that have one, in order.
pub open spec fn source_texts(
    base: Seq<char>,
    res: Seq<(String, Vec<u8>)>,
    srcs: Seq<(bool, Seq<char>)>,
) -> Seq<Seq<char>>
    decreases srcs.len(),
{
    if srcs.len() == 0 {
        Seq::empty()
    } else {
        let prev = source_texts(base, res, srcs.drop_last());
        match source_text(base, res, srcs.last()) {
            Some(t) => prev.push(t),
            None => prev,
        }
    }
}

/// Views of strings.
pub open spec fn views_of(v: Seq<String>) -> Seq<Seq<char>> {
    v.map_values(|s: String| s@)
}

/// Appends the joined address of `t` to `out` when it joins.
fn push_joined(base: &str, t: &str, out: &mut Vec<String>)
    ensures
        views_of(final(out)@) == match url_join(base@, t@) {
            Some(u) => views_of(old(out)@).push(u),
            None => views_of(old(out)@),
        },
{
    match join_url(base, t) {
        Some(u) => {
            out.push(u);
            assert(views_of(out@) =~= views_of(old(out)@).push(u@));
        },
        None => {},
    }
}

/// One step of `joined_externals`: the prefix of length `i + 1`.
proof fn lemma_joined_step(base: Seq<char>, srcs: Seq<(bool, Seq<char>)>, i: int)
    requires
        0 <= i < srcs.len(),
    ensures
        joined_externals(base, srcs.take(i + 1)) == (if srcs[i].0 {
            match url_join(base, srcs[i].1) {
                Some(u) => joined_externals(base, srcs.take(i)).push(u),
                None => joined_externals(base, srcs.take(i)),
            }
        } else {
            joined_externals(base, srcs.take(i))
        }),
{
    assert(srcs.take(i + 1).drop_last() =~= srcs.take(i));
    assert(srcs.take(i + 1).last() == srcs[i]);
}

/// Appends the joined addresses of the linked stylesheets.
fn push_sheet_urls(base: &str, sheets: &Vec<Stylesheet>, out: &mut Vec<String>)
    ensures
        views_of(final(out)@) == views_of(old(out)@) + joined_externals(base@, sheet_views(sheets@)),
{
    let ghost srcs = sheet_views(sheets@);
    let mut i: usize = 0;
    while i < sheets.len()
        invariant
            i <= sheets@.len(),
            srcs == sheet_views(sheets@),
            views_of(out@) == views_of(old(out)@) + joined_externals(base@, srcs.take(i as int)),
        decreases sheets@.len() - i,
    {
        proof {
            lemma_joined_step(base@, srcs, i as int);
        }
        match &sheets[i] {
            Stylesheet::Inline(_) => {},
            Stylesheet::External(h) => {
                push_joined(base, h.as_str(), out);
            },
        }
        assert(views_of(old(out)@) + joined_externals(base@, srcs.take(i + 1)) =~= views_of(out@));
        i += 1;
    }
    assert(srcs.take(sheets@.len() as int) =~= srcs);
}

/// Appends the joined addresses of the external scripts.
fn push_script_urls(base: &str, scripts: &Vec<Script>, out: &mut Vec<String>)
    ensures
        views_of(final(out)@) == views_of(old(out)@) + joined_externals(base@, script_views(scripts@)),
{
    let ghost srcs = script_views(scripts@);
    let mut i: usize = 0;
    while i < scripts.len()
        invariant
            i <= scripts@.len(),
            srcs == script_views(scripts@),
            views_of(out@) == views_of(old(out)@) + joined_externals(base@, srcs.take(i as int)),
        decreases scripts@.len() - i,
    {
        proof {
            lemma_joined_step(base@, srcs, i as int);
        }
        match &scripts[i] {
            Script::Inline(_) => {},
            Script::External(h) => {
                push_joined(base, h.as_str(), out);
            },
        }
        assert(views_of(old(out)@) + joined_externals(base@, srcs.take(i + 1)) =~= views_of(out@));
        i += 1;
    }
    assert(srcs.take(scripts@.len() as int) =~= srcs);
}

/// Appends the joined addresses of the images.
fn push_image_urls(base: &str, images: &Vec<String>, out: &mut Vec<String>)
    ensures
        views_of(final(out)@) == views_of(old(out)@) + joined_externals(base@, image_sources(images@)),
{
    let ghost srcs = image_sources(images@);
    let mut i: usize = 0;
    while i < images.len()
        invariant
            i <= images@.len(),
            srcs == image_sources(images@),
            views_of(out@) == views_of(old(out)@) + joined_externals(base@, srcs.take(i as int)),
        decreases images@.len() - i,
    {
        proof {
            lemma_joined_step(base@, srcs, i as int);
        }
        push_joined(base, images[i].as_str(), out);
        assert(views_of(old(out)@) + joined_externals(base@, srcs.take(i + 1)) =~= views_of(out@));
        i += 1;
    }
    assert(srcs.take(images@.len() as int) =~= srcs);
}

/// The addresses to fetch for a page at `base`: the linked stylesheets,
/// then the external scripts, then the images, each joined against the
/// page address; those that do not join are left out.
pub fn asset_urls(base: &str, sheets: &Vec<Stylesheet>, scripts: &Vec<Script>, images: &Vec<String>) -> (r: Vec<
    String,
>)
    ensures
        views_of(r@) == asset_list(base@, sheets@, scripts@, images@),
{
    let mut out: Vec<String> = Vec::new();
    assert(views_of(out@) =~= Seq::<Seq<char>>::empty());
    push_sheet_urls(base, sheets, &mut out);
    push_script_urls(base, scripts, &mut out);
    push_image_urls(base, images, &mut out);
    assert(views_of(out@) =~= asset_list(base@, sheets@, scripts@, images@));
    out
}

/// The index of the last entry of `res` fetched for address `k`.
fn find_resource(res: &Vec<(String, Vec<u8>)>, k: &str) -> (r: Option<usize>)
    ensures
        match r {
            Some(j) => j < res@.len() && resource_of(res@, k@) == Some(res@[j as int].1@),
            None => resource_of(res@, k@) is None,
        },
{
    let mut found: Option<usize> = None;
    let mut i: usize = 0;
    while i < res.len()
        invariant
            i <= res@.len(),
            match found {
                Some(j) => j < i && resource_of(res@.take(i as int), k@) == Some(res@[j as int].1@),
                None => resource_of(res@.take(i as int), k@) is None,
            },
        decreases res@.len() - i,
    {
        assert(res@.take(i + 1).drop_last() =~= res@.take(i as int));
        assert(res@.take(i + 1).last() == res@[i as int]);
        if str_eq(res[i].0.as_str(), k) {
            found = Some(i);
        }
        i += 1;
    }
    assert(res@.take(res@.len() as int) =~= res@);
    found
}

/// The text of one source, as `source_text` gives it.
fn text_of_source(base: &str, res: &Vec<(String, Vec<u8>)>, ext: bool, t: &str) -> (r: Option<String>)
    ensures
        match r {
            Some(s) => source_text(base@, res@, (ext, t@)) == Some(s@),
            None => source_text(base@, res@, (ext, t@)) is None,
        },
{
    if !ext {
        return Some(to_owned_string(t));
    }
    match join_url(base, t) {
        Some(u) => match find_resource(res, u.as_str()) {
            Some(j) => Some(lossy_text(res[j].1.as_slice())),
            None => None,
        },
        None => None,
    }
}

/// One step of `source_texts`: the prefix of length `i + 1`.
proof fn lemma_texts_step(base: Seq<char>, res: Seq<(String, Vec<u8>)>, srcs: Seq<(bool, Seq<char>)>, i: int)
    requires
        0 <= i < srcs.len(),
    ensures
        source_texts(base, res, srcs.take(i + 1)) == (match source_text(base, res, srcs[i]) {
            Some(t) => source_texts(base, res, srcs.take(i)).push(t),
            None => source_texts(base, res, srcs.take(i)),
        }),
{
    assert(srcs.take(i + 1).drop_last() =~= srcs.take(i));
    assert(srcs.take(i + 1).last() == srcs[i]);
}

/// The author stylesheets of a page, in document order: inline rules as
/// they stand, and for each linked sheet the decoded body fetched for its
/// joined address; a linked sheet with no such body is left out.
pub fn author_sheets(base: &str, sheets: &Vec<Stylesheet>, res: &Vec<(String, Vec<u8>)>) -> (r: Vec<String>)
    ensures
        views_of(r@) == source_texts(base@, res@, sheet_views(sheets@)),
{
    let ghost srcs = sheet_views(sheets@);
    let mut out: Vec<String> = Vec::new();
    let mut i: usize = 0;
    while i < sheets.len()
        invariant
            i <= sheets@.len(),
            srcs == sheet_views(sheets@),
            views_of(out@) == source_texts(base@, res@, srcs.take(i as int)),
        decreases sheets@.len() - i,
    {
        proof {
            lemma_texts_step(base@, res@, srcs, i as int);
        }
        let t = match &sheets[i] {
            Stylesheet::Inline(c) => text_of_source(base, res, false, c.as_str()),
            Stylesheet::External(h) => text_of_source(base, res, true, h.as_str()),
        };
        let ghost before = out@;
        match t {
            Some(s) => {
                out.push(s);
                assert(views_of(out@) =~= views_of(before).push(s@));
            },
            None => {},
        }
        i += 1;
    }
    assert(srcs.take(sheets@.len() as int) =~= srcs);
    out
}

/// The script sources of a page, in document order: inline code as it
/// stands, and for each external script the decoded body fetched for its
/// joined address; an external script with no such body is left out.
pub fn script_bodies(base: &str, scripts: &Vec<Script>, res: &Vec<(String, Vec<u8>)>) -> (r: Vec<String>)
    ensures
        views_of(r@) == source_texts(base@, res@, script_views(scripts@)),
{
    let ghost srcs = script_views(scripts@);
    let mut out: Vec<String> = Vec::new();
    let mut i: usize = 0;
    while i < scripts.len()
        invariant
            i <= scripts@.len(),
            srcs == script_views(scripts@),
            views_of(out@) == source_texts(base@, res@, srcs.take(i as int)),
        decreases scripts@.len() - i,
    {
        proof {
            lemma_texts_step(base@, res@, srcs, i as int);
        }
        let t = match &scripts[i] {
            Script::Inline(c) => text_of_source(base, res, false, c.as_str()),
            Script::External(h) => text_of_source(base, res, true, h.as_str()),
        };
        let ghost before = out@;
        match t {
            Some(s) => {
                out.push(s);
                assert(views_of(out@) =~= views_of(before).push(s@));
            },
            None => {},
        }
        i += 1;
    }
    assert(srcs.take(scripts@.len() as int) =~= srcs);
    out
}

/// Whether a page load runs its scripts: only when there is script code,
/// the document parsed, and the page is not a built-in one.
pub fn runs_scripts(bodies: &Vec<String>, parse_failed: bool, is_internal: bool) -> (r: bool)
    ensures
        r == (bodies@.len() > 0 && !parse_failed && !is_internal),
{
    bodies.len() > 0 && !parse_failed && !is_internal
}

/// The title of a loaded page: its `<title>` text, else its final address.
pub fn page_title(dom: &DomTree, final_url: &str) -> (r: String)
    ensures
        r@ == match title_from(dom@, 0) {
            Some(t) => t,
            None => final_url@,
        },
{
    match extract_title(dom) {
        Some(t) => t,
        None => to_owned_string(final_url),
    }
}

/// The document text of a fetched body: an empty body is a network error,
/// any other is decoded as UTF-8 with replacement characters.
pub fn page_text(body: &Vec<u8>) -> (r: Result<String, PipelineError>)
    ensures
        body@.len() == 0 <==> r is Err,
        match r {
            Ok(t) => t@ == utf8_lossy(body@),
            Err(e) => e matches PipelineError::Network(m) && m@ == "Empty response body"@,
        },
{
    if body.len() == 0 {
        return Err(PipelineError::Network(to_owned_string("Empty response body")));
    }
    Ok(lossy_text(body.as_slice()))
}

} // verus!
