//! The decisions of the HTTP client's request loop: what each hop sends,
//! when a request is refused, how redirects are followed, and when a
//! cached response may be served. The loop itself, which talks to the
//! network, the cookie jar and the disk, runs outside the library and
//! hands these functions what it received.
use vstd::prelude::*;
use crate::net::{
    apply_privacy_protections, cached_max_age, dropped, filter_headers, has_user_agent, host_or_empty,
    hv, injected_report, kept, max_age_of, next_redirect, parse_url_host, privacy_user_agent,
    protected_headers, tracker_list, trackers_in, url_parse_host, HeaderRule, NetError,
    PrivacyAwareRequest, PrivacyReport, MAX_REDIRECTS,
};
use crate::cookies::{origin_of, url_origin};
use crate::page_load::{join_url, url_join};
use crate::selector::{eq_ascii_ci, eq_ignore_ascii_case};
use crate::text::{lowercase, push_str, str_eq, str_is_empty, string_of, to_owned_string};

verus! {

/// A list of strings by their views.
pub open spec fn sv(v: Seq<String>) -> Seq<Seq<char>> {
    v.map_values(|s: String| s@)
}

/// A privacy report by its four lists: stripped, injected, blocked,
/// fingerprinting.
pub open spec fn report_lists(r: PrivacyReport) -> (Seq<Seq<char>>, Seq<Seq<char>>, Seq<Seq<char>>, Seq<Seq<char>>) {
    (sv(r.stripped_headers@), sv(r.injected_headers@), sv(r.blocked_trackers@), sv(r.fingerprinting_vectors@))
}

/// Each list of `a` followed by the same list of `b`.
pub open spec fn lists_concat(
    a: (Seq<Seq<char>>, Seq<Seq<char>>, Seq<Seq<char>>, Seq<Seq<char>>),
    b: (Seq<Seq<char>>, Seq<Seq<char>>, Seq<Seq<char>>, Seq<Seq<char>>),
) -> (Seq<Seq<char>>, Seq<Seq<char>>, Seq<Seq<char>>, Seq<Seq<char>>) {
    (a.0 + b.0, a.1 + b.1, a.2 + b.2, a.3 + b.3)
}

/// Append copies of `src` to `dst`.
fn extend_strings(dst: &mut Vec<String>, src: &Vec<String>)
    ensures
        sv(final(dst)@) == sv(old(dst)@) + sv(src@),
{
    let ghost d0 = sv(dst@);
    let mut i: usize = 0;
    while i < src.len()
        invariant
            i <= src@.len(),
            sv(dst@) == d0 + sv(src@.take(i as int)),
        decreases src@.len() - i,
    {
        let ghost before = dst@;
        dst.push(to_owned_string(src[i].as_str()));
        assert(src@.take(i + 1) =~= src@.take(i as int).push(src@[i as int]));
        assert(sv(dst@) =~= sv(before).push(src@[i as int]@));
        assert(sv(src@.take(i + 1)) =~= sv(src@.take(i as int)).push(src@[i as int]@));
        i += 1;
    }
    assert(src@.take(src@.len() as int) =~= src@);
}

/// A copy of a list of strings.
fn copy_strings(src: &Vec<String>) -> (r: Vec<String>)
    ensures
        sv(r@) == sv(src@),
{
    let mut out: Vec<String> = Vec::new();
    extend_strings(&mut out, src);
    assert(sv(out@) =~= sv(src@));
    out
}

/// Fold one hop's report into the report of the whole request: the first
/// hop's report is taken as it is, later ones extend each list.
pub fn merge_report(acc: &mut Option<PrivacyReport>, hop: &PrivacyReport)
    ensures
        *final(acc) is Some,
        report_lists((*final(acc))->0) == match *old(acc) {
            Some(a) => lists_concat(report_lists(a), report_lists(*hop)),
            None => report_lists(*hop),
        },
{
    match acc {
        Some(a) => {
            extend_strings(&mut a.stripped_headers, &hop.stripped_headers);
            extend_strings(&mut a.injected_headers, &hop.injected_headers);
            extend_strings(&mut a.blocked_trackers, &hop.blocked_trackers);
            extend_strings(&mut a.fingerprinting_vectors, &hop.fingerprinting_vectors);
        },
        None => {
            *acc = Some(
                PrivacyReport {
                    stripped_headers: copy_strings(&hop.stripped_headers),
                    injected_headers: copy_strings(&hop.injected_headers),
                    blocked_trackers: copy_strings(&hop.blocked_trackers),
                    fingerprinting_vectors: copy_strings(&hop.fingerprinting_vectors),
                },
            );
        },
    }
}

/// Whether a header list names a `User-Agent` (any case).
pub open spec fn names_user_agent(h: Seq<(Seq<char>, Seq<char>)>) -> bool {
    exists|k: int| 0 <= k < h.len() && lowercase((#[trigger] h[k]).0) == "user-agent"@
}

/// The privacy user agent string.
pub open spec fn privacy_ua() -> Seq<char> {
    "Mozilla/5.0 (Windows NT 10.0; Win64; x64) AppleWebKit/537.36 (KHTML, like Gecko) Chrome/120.0.0.0 Safari/537.36"@
}

/// The headers after adding the privacy user agent when none is set.
pub open spec fn with_user_agent(h: Seq<(Seq<char>, Seq<char>)>) -> Seq<(Seq<char>, Seq<char>)> {
    if names_user_agent(h) {
        h
    } else {
        h.push(("User-Agent"@, privacy_ua()))
    }
}

/// The headers after the cookie jar's answer: its cookies replace any
/// `Cookie` header; no cookies leave the headers alone.
pub open spec fn with_cookie(h: Seq<(Seq<char>, Seq<char>)>, cookie: Option<Seq<char>>) -> Seq<(Seq<char>, Seq<char>)> {
    match cookie {
        Some(c) => kept(h, HeaderRule::Cookie).push(("Cookie"@, c)),
        None => h,
    }
}

/// The trackers a request is refused for.
pub open spec fn blocked_for(req: PrivacyAwareRequest) -> Seq<Seq<char>> {
    if req.privacy.block_trackers {
        trackers_in(tracker_list(), host_or_empty(req.url@))
    } else {
        Seq::empty()
    }
}

/// The host named in a refusal: the URL's host, else "unknown".
pub open spec fn host_or_unknown(url: Seq<char>) -> Seq<char> {
    match url_parse_host(url) {
        Some(Some(h)) => h,
        _ => "unknown"@,
    }
}

/// The report lists of one hop of `req`.
pub open spec fn hop_lists(req: PrivacyAwareRequest) -> (Seq<Seq<char>>, Seq<Seq<char>>, Seq<Seq<char>>, Seq<Seq<char>>) {
    (
        if req.privacy.strip_referer {
            dropped(hv(req.headers@), HeaderRule::Privacy)
        } else {
            Seq::empty()
        },
        injected_report(req.privacy),
        blocked_for(req),
        Seq::empty(),
    )
}

/// Prepare one hop of a request: apply the privacy protections and fold
/// their report into `merged`; refuse the request when its host is a known
/// tracker; otherwise add the privacy user agent when none is set and let
/// the cookie jar's cookies (if any) replace the `Cookie` headers.
pub fn prepare_hop(
    request: &mut PrivacyAwareRequest,
    merged: &mut Option<PrivacyReport>,
    cookie: Option<String>,
) -> (r: Result<(), NetError>)
    ensures
        final(request).url == old(request).url,
        final(request).method == old(request).method,
        final(request).privacy == old(request).privacy,
        *final(merged) is Some,
        report_lists((*final(merged))->0) == match *old(merged) {
            Some(a) => lists_concat(report_lists(a), hop_lists(*old(request))),
            None => hop_lists(*old(request)),
        },
        (r is Err) == (blocked_for(*old(request)).len() > 0),
        r is Err ==> (match r {
            Err(NetError::TrackerBlocked { domain }) => domain@ == host_or_unknown(old(request).url@),
            _ => false,
        }),
        r is Err ==> hv(final(request).headers@) == protected_headers(
            hv(old(request).headers@),
            old(request).privacy,
        ),
        r is Ok ==> hv(final(request).headers@) == with_cookie(
            with_user_agent(protected_headers(hv(old(request).headers@), old(request).privacy)),
            match cookie {
                Some(c) => Some(c@),
                None => None,
            },
        ),
{
    let ghost req0 = *request;
    let report = apply_privacy_protections(request);
    proof {
        assert(report_lists(report) =~= hop_lists(req0));
    }
    merge_report(merged, &report);
    if report.blocked_trackers.len() > 0 {
        let domain = match parse_url_host(request.url.as_str()) {
            Some(Some(h)) => h,
            _ => to_owned_string("unknown"),
        };
        return Err(NetError::TrackerBlocked { domain });
    }
    let ghost p = hv(request.headers@);
    let has_ua = has_user_agent(&request.headers);
    proof {
        if has_ua {
            let k = choose|k: int|
                0 <= k < request.headers@.len() && lowercase((#[trigger] request.headers@[k]).0@)
                    == "user-agent"@;
            assert(p[k].0 == request.headers@[k].0@);
        } else {
            assert forall|k: int| 0 <= k < p.len() implies lowercase((#[trigger] p[k]).0)
                != "user-agent"@ by {
                assert(p[k].0 == request.headers@[k].0@);
            }
        }
    }
    if !has_ua {
        let ghost before = request.headers@;
        request.headers.push((to_owned_string("User-Agent"), privacy_user_agent()));
        assert(hv(request.headers@) =~= hv(before).push(("User-Agent"@, privacy_ua())));
    }
    match cookie {
        Some(c) => {
            filter_headers(&mut request.headers, HeaderRule::Cookie);
            let ghost before = request.headers@;
            request.headers.push((to_owned_string("Cookie"), c));
            assert(hv(request.headers@) =~= hv(before).push(("Cookie"@, c@)));
        },
        None => {},
    }
    Ok(())
}

/// The message of the error for a request redirected too often.
pub open spec fn too_many_redirects() -> Seq<char> {
    "Too many redirects"@
}

/// Follow one redirect: count it and fail with "Too many redirects" past
/// the limit; on a cross-origin redirect drop the credential headers and
/// record their names as stripped in the request's report.
pub fn follow_redirect(
    headers: &mut Vec<(String, String)>,
    merged: &mut Option<PrivacyReport>,
    count: u32,
    cross_origin: bool,
) -> (r: Result<u32, NetError>)
    ensures
        count >= MAX_REDIRECTS ==> (match r {
            Err(NetError::ConnectionFailed(m)) => m@ == too_many_redirects(),
            _ => false,
        }) && final(headers)@ == old(headers)@ && *final(merged) == *old(merged),
        count < MAX_REDIRECTS ==> r == Ok::<u32, NetError>((count + 1) as u32),
        count < MAX_REDIRECTS && !cross_origin ==> final(headers)@ == old(headers)@ && *final(merged)
            == *old(merged),
        count < MAX_REDIRECTS && cross_origin ==> hv(final(headers)@) == kept(
            hv(old(headers)@),
            HeaderRule::CrossOrigin,
        ) && match *old(merged) {
            Some(a) => *final(merged) is Some && report_lists((*final(merged))->0) == (
                report_lists(a).0 + dropped(hv(old(headers)@), HeaderRule::CrossOrigin),
                report_lists(a).1,
                report_lists(a).2,
                report_lists(a).3,
            ),
            None => *final(merged) is None,
        },
{
    match next_redirect(count) {
        None => Err(NetError::ConnectionFailed(to_owned_string("Too many redirects"))),
        Some(next) => {
            if cross_origin {
                let gone = filter_headers(headers, HeaderRule::CrossOrigin);
                assert(sv(gone@) =~= dropped(hv(old(headers)@), HeaderRule::CrossOrigin));
                match merged {
                    Some(a) => {
                        extend_strings(&mut a.stripped_headers, &gone);
                    },
                    None => {},
                }
            }
            Ok(next)
        },
    }
}

/// Whether a cached response with these headers, written `age_secs`
/// seconds ago, may be served: its max-age is positive and not yet reached.
pub fn cache_fresh(headers: &Vec<(String, String)>, age_secs: u64) -> (r: bool)
    ensures
        r == (max_age_of(hv(headers@)) > 0 && age_secs < max_age_of(hv(headers@))),
{
    let max_age = cached_max_age(headers);
    max_age > 0 && age_secs < max_age
}

/// A header list filtered by a rule holds no header that the rule removes,
/// and removes nothing else: so no credential header follows a cross-origin
/// redirect, and no referer leaves with a privacy-stripped request.
pub proof fn lemma_filtered_headers_are_clean(h: Seq<(Seq<char>, Seq<char>)>, rule: HeaderRule)
    ensures
        forall|k: int|
            0 <= k < kept(h, rule).len() ==> !crate::net::rule_drops(rule, (#[trigger] kept(h, rule)[k]).0),
        kept(h, rule).len() + dropped(h, rule).len() == h.len(),
    decreases h.len(),
{
    if h.len() > 0 {
        lemma_filtered_headers_are_clean(h.drop_last(), rule);
    }
}

/// The scheme, host and path of a URL (`Url::parse`, `Url::scheme`,
/// `Url::host_str`, `Url::path`), or `None` when the text is not a URL.
pub uninterp spec fn url_parts(url: Seq<char>) -> Option<(Seq<char>, Option<Seq<char>>, Seq<char>)>;

/// The scheme, host and path of a URL, named by `url_parts`.
#[verifier::external_body]
fn parts_of(url: &str) -> (r: Option<(String, Option<String>, String)>)
    ensures
        match r {
            Some((a, b, c)) => url_parts(url@) == Some((a@, match b {
                Some(h) => Some(h@),
                None => None::<Seq<char>>,
            }, c@)),
            None => url_parts(url@) is None,
        },
{
    match url::Url::parse(url) {
        Ok(u) => Some((u.scheme().to_string(), u.host_str().map(|h| h.to_string()), u.path().to_string())),
        Err(_) => None,
    }
}

/// The path of a built-in page: for a `kitsune:` URL, its host (empty
/// when it has none) followed by its path.
pub open spec fn internal_path_of(url: Seq<char>) -> Option<Seq<char>> {
    match url_parts(url) {
        Some((scheme, host, path)) => if scheme == "kitsune"@ {
            Some(
                match host {
                    Some(h) => h,
                    None => Seq::empty(),
                } + path,
            )
        } else {
            None
        },
        None => None,
    }
}

/// Whether a request goes to a built-in page instead of the network, and
/// which: the `kitsune:` URL's host and path.
pub fn internal_route(url: &str) -> (r: Option<String>)
    ensures
        match r {
            Some(p) => internal_path_of(url@) == Some(p@),
            None => internal_path_of(url@) is None,
        },
{
    match parts_of(url) {
        Some((scheme, host, path)) => {
            if str_eq(scheme.as_str(), "kitsune") {
                let mut out = match host {
                    Some(h) => h,
                    None => string_of(&[]),
                };
                push_str(&mut out, path.as_str());
                Some(out)
            } else {
                None
            }
        },
        None => None,
    }
}

/// The top-level origin a request is made for: the one it names, or, when
/// it names none, the origin of its own URL (left empty when the URL has
/// none).
pub fn top_level_origin_for(named: &str, url: &str) -> (r: String)
    ensures
        named@.len() > 0 ==> r@ == named@,
        named@.len() == 0 ==> r@ == match url_origin(url@) {
            Some(o) => o,
            None => named@,
        },
{
    if !str_is_empty(named) {
        return to_owned_string(named);
    }
    match origin_of(url) {
        Some(o) => o,
        None => to_owned_string(named),
    }
}

/// Whether a redirect from `current` to `next` crosses origins: unless both
/// have the same origin, and it is not an opaque one (serialized "null",
/// which is never equal to another), it does.
pub open spec fn crosses_origin(current: Seq<char>, next: Seq<char>) -> bool {
    !(url_origin(current) matches Some(a) && url_origin(next) == Some(a) && a != "null"@)
}

/// Whether two origins, as found for two URLs, make the redirect cross
/// origins (see `crosses_origin`).
fn origins_differ(current: &str, next: &str) -> (r: bool)
    ensures
        r == crosses_origin(current@, next@),
{
    match (origin_of(current), origin_of(next)) {
        (Some(a), Some(b)) => !(str_eq(a.as_str(), b.as_str()) && !str_eq(a.as_str(), "null")),
        _ => true,
    }
}

/// The loop ends here: `Ok(None)`, nothing changed.
pub open spec fn redirect_ignored(
    r: Result<Option<(String, u32)>, NetError>,
    h0: Seq<(String, String)>,
    h1: Seq<(String, String)>,
    m0: Option<PrivacyReport>,
    m1: Option<PrivacyReport>,
) -> bool {
    r == Ok::<Option<(String, u32)>, NetError>(None) && h1 == h0 && m1 == m0
}

/// The redirect to `next` is followed as `follow_redirect` says.
pub open spec fn redirect_followed(
    cross: bool,
    next: Seq<char>,
    count: u32,
    r: Result<Option<(String, u32)>, NetError>,
    h0: Seq<(String, String)>,
    h1: Seq<(String, String)>,
    m0: Option<PrivacyReport>,
    m1: Option<PrivacyReport>,
) -> bool {
    &&& count >= MAX_REDIRECTS ==> (match r {
        Err(NetError::ConnectionFailed(m)) => m@ == too_many_redirects(),
        _ => false,
    }) && h1 == h0 && m1 == m0
    &&& count < MAX_REDIRECTS ==> (match r {
        Ok(Some((u, c))) => u@ == next && c == count + 1,
        _ => false,
    })
    &&& count < MAX_REDIRECTS && !cross ==> h1 == h0 && m1 == m0
    &&& count < MAX_REDIRECTS && cross ==> hv(h1) == kept(hv(h0), HeaderRule::CrossOrigin) && match m0 {
        Some(a) => m1 is Some && report_lists(m1->0) == (
            report_lists(a).0 + dropped(hv(h0), HeaderRule::CrossOrigin),
            report_lists(a).1,
            report_lists(a).2,
            report_lists(a).3,
        ),
        None => m1 is None,
    }
}

/// One redirect decision of the request loop. A response whose status is
/// not 3xx, or that has no `Location` joining onto the current URL, ends
/// the loop (`Ok(None)`, nothing changed). Otherwise the redirect is
/// followed as `follow_redirect` says, crossing origins exactly when
/// `crosses_origin` holds, and the next URL and count are returned.
pub fn redirect_step(
    current: &str,
    location: Option<&str>,
    status: u16,
    headers: &mut Vec<(String, String)>,
    merged: &mut Option<PrivacyReport>,
    count: u32,
) -> (r: Result<Option<(String, u32)>, NetError>)
    ensures
        match location {
            Some(l) => match url_join(current@, l@) {
                Some(next) => if 300 <= status < 400 {
                    redirect_followed(
                        crosses_origin(current@, next),
                        next,
                        count,
                        r,
                        old(headers)@,
                        final(headers)@,
                        *old(merged),
                        *final(merged),
                    )
                } else {
                    redirect_ignored(r, old(headers)@, final(headers)@, *old(merged), *final(merged))
                },
                None => redirect_ignored(r, old(headers)@, final(headers)@, *old(merged), *final(merged)),
            },
            None => redirect_ignored(r, old(headers)@, final(headers)@, *old(merged), *final(merged)),
        },
{
    if status < 300 || status >= 400 {
        return Ok(None);
    }
    let loc = match location {
        Some(l) => l,
        None => {
            return Ok(None);
        },
    };
    let next = match join_url(current, loc) {
        Some(n) => n,
        None => {
            return Ok(None);
        },
    };
    let cross = origins_differ(current, next.as_str());
    match follow_redirect(headers, merged, count, cross) {
        Ok(c) => Ok(Some((next, c))),
        Err(e) => Err(e),
    }
}

/// The `Set-Cookie` values among response headers, in order: the values
/// of the headers whose name is `set-cookie` in any ASCII case.
pub open spec fn set_cookie_values_of(h: Seq<(Seq<char>, Seq<char>)>) -> Seq<Seq<char>>
    decreases h.len(),
{
    if h.len() == 0 {
        Seq::empty()
    } else {
        let rest = set_cookie_values_of(h.drop_last());
        if eq_ascii_ci(h.last().0, "set-cookie"@) {
            rest.push(h.last().1)
        } else {
            rest
        }
    }
}

/// The `Set-Cookie` values of a response, for the cookie jar.
pub fn set_cookie_values(headers: &Vec<(String, String)>) -> (r: Vec<String>)
    ensures
        sv(r@) == set_cookie_values_of(hv(headers@)),
{
    let ghost h = hv(headers@);
    let mut out: Vec<String> = Vec::new();
    let mut i: usize = 0;
    while i < headers.len()
        invariant
            h == hv(headers@),
            i <= headers@.len(),
            sv(out@) == set_cookie_values_of(h.take(i as int)),
        decreases headers@.len() - i,
    {
        assert(h.take(i + 1).drop_last() =~= h.take(i as int));
        assert(h.take(i + 1).last() == h[i as int]);
        assert(h[i as int] == (headers@[i as int].0@, headers@[i as int].1@));
        if eq_ignore_ascii_case(headers[i].0.as_str(), "set-cookie") {
            let ghost before = out@;
            out.push(to_owned_string(headers[i].1.as_str()));
            assert(sv(out@) =~= sv(before).push(headers@[i as int].1@));
        }
        i += 1;
    }
    assert(h.take(headers@.len() as int) =~= h);
    out
}

} // verus!
