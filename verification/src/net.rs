//! Privacy enforcement at the network layer: header stripping and
//! injection, tracker blocking, fingerprinting detection, redirect and
//! cache rules, and the built-in `kitsune://` pages.
use vstd::prelude::*;
use vstd::string::StringSliceAdditionalSpecFns;
use crate::selector::{eq_ascii_ci, eq_ignore_ascii_case};
use crate::text::{
    chars_of, find_chars, find_from, has_prefix, has_sub, lowercase, push_str, str_contains,
    str_eq, str_starts_with, string_of, to_lower, to_owned_string, trim, trimmed,
};

verus! {

/// HTTP methods.
#[derive(Debug, Clone, Copy, PartialEq, Eq, Structural)]
pub enum HttpMethod {
    Get,
    Post,
    Put,
    Delete,
    Patch,
    Head,
    Options,
}

impl HttpMethod {
    /// The method's name as sent on the wire.
    pub open spec fn name_spec(self) -> Seq<char> {
        match self {
            HttpMethod::Get => "GET"@,
            HttpMethod::Post => "POST"@,
            HttpMethod::Put => "PUT"@,
            HttpMethod::Delete => "DELETE"@,
            HttpMethod::Patch => "PATCH"@,
            HttpMethod::Head => "HEAD"@,
            HttpMethod::Options => "OPTIONS"@,
        }
    }

    /// The method's name as sent on the wire (its display form).
    pub fn to_string(&self) -> (r: String)
        ensures
            r@ == self.name_spec(),
    {
        match self {
            HttpMethod::Get => to_owned_string("GET"),
            HttpMethod::Post => to_owned_string("POST"),
            HttpMethod::Put => to_owned_string("PUT"),
            HttpMethod::Delete => to_owned_string("DELETE"),
            HttpMethod::Patch => to_owned_string("PATCH"),
            HttpMethod::Head => to_owned_string("HEAD"),
            HttpMethod::Options => to_owned_string("OPTIONS"),
        }
    }
}

/// TLS version.
#[derive(Debug, Clone, Copy, PartialEq, Eq, Structural)]
pub enum TlsVersion {
    Tls12,
    Tls13,
}

/// Privacy settings for a network request.
#[derive(Debug, Clone, Copy, PartialEq, Eq, Structural)]
pub struct RequestPrivacySettings {
    /// Strip the Referer (and client address) headers.
    pub strip_referer: bool,
    /// Send Do Not Track header.
    pub send_dnt: bool,
    /// Send Global Privacy Control header.
    pub send_gpc: bool,
    /// Minimum TLS version.
    pub min_tls_version: TlsVersion,
    /// Block known tracker domains.
    pub block_trackers: bool,
    /// Randomize request timing.
    pub randomize_timing: bool,
}

impl Default for RequestPrivacySettings {
    /// Every protection on, TLS 1.3 minimum, no timing randomization.
    fn default() -> (r: Self)
        ensures
            r == (RequestPrivacySettings {
                strip_referer: true,
                send_dnt: true,
                send_gpc: true,
                min_tls_version: TlsVersion::Tls13,
                block_trackers: true,
                randomize_timing: false,
            }),
    {
        RequestPrivacySettings {
            strip_referer: true,
            send_dnt: true,
            send_gpc: true,
            min_tls_version: TlsVersion::Tls13,
            block_trackers: true,
            randomize_timing: false,
        }
    }
}

/// A privacy-aware HTTP request.
#[derive(Debug, Clone)]
pub struct PrivacyAwareRequest {
    /// The URL to fetch (serialized).
    pub url: String,
    /// HTTP method.
    pub method: HttpMethod,
    /// Headers.
    pub headers: Vec<(String, String)>,
    /// Request body.
    pub body: Option<Vec<u8>>,
    /// Top-level origin for partitioned cookies.
    pub top_level_origin: String,
    /// Privacy settings for this request.
    pub privacy: RequestPrivacySettings,
}

/// Privacy report for a request.
#[derive(Debug, Clone)]
pub struct PrivacyReport {
    /// Headers that were stripped from the request.
    pub stripped_headers: Vec<String>,
    /// Privacy headers that were injected.
    pub injected_headers: Vec<String>,
    /// Tracker domains that were blocked.
    pub blocked_trackers: Vec<String>,
    /// Fingerprinting vectors detected.
    pub fingerprinting_vectors: Vec<String>,
}

/// A response as the client hands it back.
#[derive(Debug, Clone)]
pub struct HttpResponse {
    /// HTTP status code.
    pub status: u16,
    /// Response headers, in order.
    pub headers: Vec<(String, String)>,
    /// Response body.
    pub body: Vec<u8>,
    /// The URL the response came from, after redirects (serialized).
    pub final_url: String,
    /// Whether it came over HTTPS (internal pages count as secure).
    pub is_secure: bool,
    /// Whether it is a built-in `kitsune://` page.
    pub is_internal: bool,
    /// What the privacy protections did on the way.
    pub privacy_report: PrivacyReport,
}

/// Network errors.
#[derive(Debug)]
pub enum NetError {
    RequestFailed(String),
    TlsError(String),
    DnsResolutionFailed { domain: String },
    ConnectionRefused { domain: String },
    Timeout { timeout_ms: u64 },
    TrackerBlocked { domain: String },
    TlsVersionTooLow { version: TlsVersion },
    CertificateError { domain: String, reason: String },
    Internal(String),
    ConnectionFailed(String),
}

/// Result type of network operations.
pub type NetResult<T> = Result<T, NetError>;

/// Names what `url::Url::parse` yields for a string: `None` when it does
/// not parse, else the URL's host (`Url::host_str`), if it has one.
pub uninterp spec fn url_parse_host(s: Seq<char>) -> Option<Option<Seq<char>>>;

/// Parse `s` as a URL (`url::Url::parse`) and take its host
/// (`Url::host_str`). The result is named by `url_parse_host`.
#[verifier::external_body]
pub(crate) fn parse_url_host(s: &str) -> (r: Option<Option<String>>)
    ensures
        match r {
            None => url_parse_host(s@) is None,
            Some(None) => url_parse_host(s@) == Some(None::<Seq<char>>),
            Some(Some(h)) => url_parse_host(s@) == Some(Some(h@)),
        },
{
    match url::Url::parse(s) {
        Ok(u) => Some(u.host_str().map(|h| h.to_string())),
        Err(_) => None,
    }
}

/// The host of a URL string, empty when it has none or does not parse.
pub open spec fn host_or_empty(url: Seq<char>) -> Seq<char> {
    match url_parse_host(url) {
        Some(Some(h)) => h,
        _ => Seq::empty(),
    }
}

/// The host of a URL string, empty when it has none or does not parse.
pub fn url_host(url: &str) -> (r: String)
    ensures
        r@ == host_or_empty(url@),
{
    match parse_url_host(url) {
        Some(Some(h)) => h,
        _ => String::new(),
    }
}

/// The known tracker domains (a blocklist).
pub open spec fn tracker_list() -> Seq<Seq<char>> {
    seq![
        "doubleclick.net"@,
        "googlesyndication.com"@,
        "google-analytics.com"@,
        "facebook.net"@,
        "facebook.com/tr"@,
        "analytics.twitter.com"@,
        "bat.bing.com"@,
        "pixel.quantserve.com"@,
    ]
}

/// The known tracker domains.
pub fn known_trackers() -> (r: Vec<&'static str>)
    ensures
        r@.len() == tracker_list().len(),
        forall|k: int| 0 <= k < r@.len() ==> (#[trigger] r@[k])@ == tracker_list()[k],
{
    let mut v: Vec<&'static str> = Vec::new();
    v.push("doubleclick.net");
    v.push("googlesyndication.com");
    v.push("google-analytics.com");
    v.push("facebook.net");
    v.push("facebook.com/tr");
    v.push("analytics.twitter.com");
    v.push("bat.bing.com");
    v.push("pixel.quantserve.com");
    v
}

/// The tracker entries contained in `domain`, in blocklist order.
pub open spec fn trackers_in(list: Seq<Seq<char>>, domain: Seq<char>) -> Seq<Seq<char>>
    decreases list.len(),
{
    if list.len() == 0 {
        Seq::empty()
    } else {
        let r = trackers_in(list.drop_last(), domain);
        if has_sub(domain, list.last()) {
            r.push(list.last())
        } else {
            r
        }
    }
}

/// A domain is a tracker when it contains a blocklist entry.
pub open spec fn tracker_domain(domain: Seq<char>) -> bool {
    exists|k: int| 0 <= k < tracker_list().len() && has_sub(domain, #[trigger] tracker_list()[k])
}

/// Check if a domain is a known tracker.
pub fn is_tracker(domain: &str) -> (r: bool)
    ensures
        r == tracker_domain(domain@),
{
    let list = known_trackers();
    let mut k: usize = 0;
    while k < list.len()
        invariant
            list@.len() == tracker_list().len(),
            forall|m: int| 0 <= m < list@.len() ==> (#[trigger] list@[m])@ == tracker_list()[m],
            k <= list@.len(),
            forall|m: int| 0 <= m < k ==> !has_sub(domain@, #[trigger] tracker_list()[m]),
        decreases list@.len() - k,
    {
        if str_contains(domain, list[k]) {
            assert(has_sub(domain@, tracker_list()[k as int]));
            return true;
        }
        k += 1;
    }
    false
}

/// The trackers a domain contains, in blocklist order.
pub fn matching_trackers(domain: &str) -> (r: Vec<String>)
    ensures
        r@.len() == trackers_in(tracker_list(), domain@).len(),
        forall|k: int|
            0 <= k < r@.len() ==> (#[trigger] r@[k])@ == trackers_in(tracker_list(), domain@)[k],
{
    let list = known_trackers();
    let mut out: Vec<String> = Vec::new();
    let mut k: usize = 0;
    while k < list.len()
        invariant
            list@.len() == tracker_list().len(),
            forall|m: int| 0 <= m < list@.len() ==> (#[trigger] list@[m])@ == tracker_list()[m],
            k <= list@.len(),
            out@.len() == trackers_in(tracker_list().take(k as int), domain@).len(),
            forall|m: int|
                0 <= m < out@.len() ==> (#[trigger] out@[m])@ == trackers_in(
                    tracker_list().take(k as int),
                    domain@,
                )[m],
        decreases list@.len() - k,
    {
        assert(tracker_list().take(k + 1).drop_last() =~= tracker_list().take(k as int));
        assert(tracker_list().take(k + 1).last() == tracker_list()[k as int]);
        if str_contains(domain, list[k]) {
            out.push(to_owned_string(list[k]));
        }
        k += 1;
    }
    assert(tracker_list().take(tracker_list().len() as int) =~= tracker_list());
    out
}

/// Generate a privacy-safe, common User-Agent string.
pub fn privacy_user_agent() -> (r: String)
    ensures
        r@ == "Mozilla/5.0 (Windows NT 10.0; Win64; x64) AppleWebKit/537.36 (KHTML, like Gecko) Chrome/120.0.0.0 Safari/537.36"@,
{
    to_owned_string(
        "Mozilla/5.0 (Windows NT 10.0; Win64; x64) AppleWebKit/537.36 (KHTML, like Gecko) Chrome/120.0.0.0 Safari/537.36",
    )
}

/// Header lists by their string views.
pub open spec fn hv(h: Seq<(String, String)>) -> Seq<(Seq<char>, Seq<char>)> {
    h.map_values(|p: (String, String)| (p.0@, p.1@))
}

/// Which headers a filtering pass removes.
#[derive(Debug, Clone, Copy, PartialEq, Eq, Structural)]
pub enum HeaderRule {
    /// Referer and client-address headers (privacy stripping).
    Privacy,
    /// Credentials that must not follow a cross-origin redirect.
    CrossOrigin,
    /// Cookie headers (replaced by the partitioned jar's cookies).
    Cookie,
}

/// Whether `rule` removes a header named `name`.
pub open spec fn rule_drops(rule: HeaderRule, name: Seq<char>) -> bool {
    match rule {
        HeaderRule::Privacy => {
            let l = lowercase(name);
            l == "referer"@ || l == "x-forwarded-for"@ || l == "x-real-ip"@ || l == "x-client-ip"@
        },
        HeaderRule::CrossOrigin => {
            let l = lowercase(name);
            l == "authorization"@ || l == "cookie"@ || l == "proxy-authorization"@
        },
        HeaderRule::Cookie => eq_ascii_ci(name, "cookie"@),
    }
}

/// Whether `rule` removes a header named `name`.
pub fn drops_header(rule: HeaderRule, name: &str) -> (r: bool)
    ensures
        r == rule_drops(rule, name@),
{
    match rule {
        HeaderRule::Privacy => {
            let l = to_lower(name);
            let t = l.as_str();
            str_eq(t, "referer") || str_eq(t, "x-forwarded-for") || str_eq(t, "x-real-ip") || str_eq(
                t,
                "x-client-ip",
            )
        },
        HeaderRule::CrossOrigin => {
            let l = to_lower(name);
            let t = l.as_str();
            str_eq(t, "authorization") || str_eq(t, "cookie") || str_eq(t, "proxy-authorization")
        },
        HeaderRule::Cookie => eq_ignore_ascii_case(name, "cookie"),
    }
}

/// The headers a rule keeps, in order.
pub open spec fn kept(h: Seq<(Seq<char>, Seq<char>)>, rule: HeaderRule) -> Seq<(Seq<char>, Seq<char>)>
    decreases h.len(),
{
    if h.len() == 0 {
        Seq::empty()
    } else {
        let r = kept(h.drop_last(), rule);
        if rule_drops(rule, h.last().0) {
            r
        } else {
            r.push(h.last())
        }
    }
}

/// The names of the headers a rule removes, in order.
pub open spec fn dropped(h: Seq<(Seq<char>, Seq<char>)>, rule: HeaderRule) -> Seq<Seq<char>>
    decreases h.len(),
{
    if h.len() == 0 {
        Seq::empty()
    } else {
        let r = dropped(h.drop_last(), rule);
        if rule_drops(rule, h.last().0) {
            r.push(h.last().0)
        } else {
            r
        }
    }
}

/// Remove the headers `rule` drops, returning the removed headers' names.
pub fn filter_headers(headers: &mut Vec<(String, String)>, rule: HeaderRule) -> (r: Vec<String>)
    ensures
        hv(final(headers)@) == kept(hv(old(headers)@), rule),
        r@.len() == dropped(hv(old(headers)@), rule).len(),
        forall|k: int| 0 <= k < r@.len() ==> (#[trigger] r@[k])@ == dropped(hv(old(headers)@), rule)[k],
{
    let mut keep: Vec<(String, String)> = Vec::new();
    let mut gone: Vec<String> = Vec::new();
    let ghost h = hv(headers@);
    let mut i: usize = 0;
    while i < headers.len()
        invariant
            h == hv(headers@),
            i <= headers@.len(),
            hv(keep@) == kept(h.take(i as int), rule),
            gone@.len() == dropped(h.take(i as int), rule).len(),
            forall|k: int|
                0 <= k < gone@.len() ==> (#[trigger] gone@[k])@ == dropped(h.take(i as int), rule)[k],
        decreases headers@.len() - i,
    {
        assert(h.take(i + 1).drop_last() =~= h.take(i as int));
        assert(h.take(i + 1).last() == h[i as int]);
        let name = headers[i].0.clone();
        let value = headers[i].1.clone();
        if drops_header(rule, name.as_str()) {
            gone.push(name);
        } else {
            let ghost before = keep@;
            keep.push((name, value));
            assert(hv(keep@) =~= hv(before).push(h[i as int]));
        }
        i += 1;
    }
    assert(h.take(headers@.len() as int) =~= h);
    *headers = keep;
    gone
}

/// The headers after privacy processing: stripped (when enabled), then DNT
/// and Sec-GPC appended (when enabled).
pub open spec fn protected_headers(h: Seq<(Seq<char>, Seq<char>)>, s: RequestPrivacySettings) -> Seq<
    (Seq<char>, Seq<char>),
> {
    let a = if s.strip_referer {
        kept(h, HeaderRule::Privacy)
    } else {
        h
    };
    let b = if s.send_dnt {
        a.push(("DNT"@, "1"@))
    } else {
        a
    };
    if s.send_gpc {
        b.push(("Sec-GPC"@, "1"@))
    } else {
        b
    }
}

/// The injected-header report lines.
pub open spec fn injected_report(s: RequestPrivacySettings) -> Seq<Seq<char>> {
    let a: Seq<Seq<char>> = if s.send_dnt { seq!["DNT: 1"@] } else { seq![] };
    if s.send_gpc {
        a.push("Sec-GPC: 1"@)
    } else {
        a
    }
}

/// Apply privacy protections to an outgoing request: strip privacy-sensitive
/// headers, inject DNT and Sec-GPC, and report which blocklisted trackers
/// the request's host contains.
pub fn apply_privacy_protections(request: &mut PrivacyAwareRequest) -> (r: PrivacyReport)
    ensures
        hv(final(request).headers@) == protected_headers(hv(old(request).headers@), old(request).privacy),
        final(request).url == old(request).url,
        final(request).method == old(request).method,
        final(request).body == old(request).body,
        final(request).top_level_origin == old(request).top_level_origin,
        final(request).privacy == old(request).privacy,
        r.stripped_headers@.map_values(|s: String| s@) == if old(request).privacy.strip_referer {
            dropped(hv(old(request).headers@), HeaderRule::Privacy)
        } else {
            Seq::empty()
        },
        r.injected_headers@.map_values(|s: String| s@) == injected_report(old(request).privacy),
        r.blocked_trackers@.map_values(|s: String| s@) == if old(request).privacy.block_trackers {
            trackers_in(tracker_list(), host_or_empty(old(request).url@))
        } else {
            Seq::empty()
        },
        r.fingerprinting_vectors@.len() == 0,
{
    let settings = request.privacy;
    let ghost h0 = hv(request.headers@);
    let stripped = if settings.strip_referer {
        filter_headers(&mut request.headers, HeaderRule::Privacy)
    } else {
        Vec::new()
    };
    let mut injected: Vec<String> = Vec::new();
    if settings.send_dnt {
        let ghost before = request.headers@;
        request.headers.push((to_owned_string("DNT"), to_owned_string("1")));
        assert(hv(request.headers@) =~= hv(before).push(("DNT"@, "1"@)));
        injected.push(to_owned_string("DNT: 1"));
    }
    if settings.send_gpc {
        let ghost before = request.headers@;
        request.headers.push((to_owned_string("Sec-GPC"), to_owned_string("1")));
        assert(hv(request.headers@) =~= hv(before).push(("Sec-GPC"@, "1"@)));
        injected.push(to_owned_string("Sec-GPC: 1"));
    }
    let blocked = if settings.block_trackers {
        let host = url_host(request.url.as_str());
        matching_trackers(host.as_str())
    } else {
        Vec::new()
    };
    proof {
        let ghost st = stripped@.map_values(|s: String| s@);
        assert(st =~= if settings.strip_referer {
            dropped(h0, HeaderRule::Privacy)
        } else {
            Seq::empty()
        });
        assert(injected@.map_values(|s: String| s@) =~= injected_report(settings));
        assert(blocked@.map_values(|s: String| s@) =~= if settings.block_trackers {
            trackers_in(tracker_list(), host_or_empty(request.url@))
        } else {
            Seq::empty()
        });
    }
    PrivacyReport {
        stripped_headers: stripped,
        injected_headers: injected,
        blocked_trackers: blocked,
        fingerprinting_vectors: Vec::new(),
    }
}

/// The fingerprinting report lines for one header name.
pub open spec fn vectors_for(name: Seq<char>) -> Seq<Seq<char>> {
    let l = lowercase(name);
    let a: Seq<Seq<char>> = if l == "accept-language"@ {
        seq!["Accept-Language (can fingerprint locale)"@]
    } else {
        seq![]
    };
    if has_prefix(l, "sec-ch-ua"@) {
        a.push(name + " (client hint fingerprinting)"@)
    } else {
        a
    }
}

/// The fingerprinting report lines for a header list, header by header.
pub open spec fn vectors_of(h: Seq<(Seq<char>, Seq<char>)>) -> Seq<Seq<char>>
    decreases h.len(),
{
    if h.len() == 0 {
        Seq::empty()
    } else {
        vectors_of(h.drop_last()) + vectors_for(h.last().0)
    }
}

/// Detect request headers usable for fingerprinting: a detailed
/// `Accept-Language`, and `Sec-CH-UA*` client hints.
pub fn detect_fingerprinting_vectors(headers: &Vec<(String, String)>) -> (r: Vec<String>)
    ensures
        r@.map_values(|s: String| s@) == vectors_of(hv(headers@)),
{
    let ghost h = hv(headers@);
    let mut vectors: Vec<String> = Vec::new();
    let mut i: usize = 0;
    while i < headers.len()
        invariant
            h == hv(headers@),
            i <= headers@.len(),
            vectors@.map_values(|s: String| s@) == vectors_of(h.take(i as int)),
        decreases headers@.len() - i,
    {
        assert(h.take(i + 1).drop_last() =~= h.take(i as int));
        assert(h.take(i + 1).last() == h[i as int]);
        let ghost before = vectors@.map_values(|s: String| s@);
        let name = headers[i].0.as_str();
        let lower = to_lower(name);
        let mut added: Vec<String> = Vec::new();
        if str_eq(lower.as_str(), "accept-language") {
            added.push(to_owned_string("Accept-Language (can fingerprint locale)"));
        }
        if str_starts_with(lower.as_str(), "sec-ch-ua") {
            let mut line = to_owned_string(name);
            push_str(&mut line, " (client hint fingerprinting)");
            added.push(line);
        }
        assert(added@.map_values(|s: String| s@) =~= vectors_for(h[i as int].0));
        let mut j: usize = 0;
        let ghost base = vectors@;
        while j < added.len()
            invariant
                j <= added@.len(),
                vectors@ == base + added@.take(j as int),
            decreases added@.len() - j,
        {
            vectors.push(added[j].clone());
            j += 1;
            assert(vectors@ =~= base + added@.take(j as int));
        }
        assert(added@.take(added@.len() as int) =~= added@);
        assert(vectors@.map_values(|s: String| s@) =~= before + vectors_for(h[i as int].0));
        i += 1;
    }
    assert(h.take(headers@.len() as int) =~= h);
    vectors
}

/// Whether a header list already names a `User-Agent` (any case).
pub fn has_user_agent(headers: &Vec<(String, String)>) -> (r: bool)
    ensures
        r == exists|k: int|
            0 <= k < headers@.len() && lowercase((#[trigger] headers@[k]).0@) == "user-agent"@,
{
    let mut i: usize = 0;
    while i < headers.len()
        invariant
            i <= headers@.len(),
            forall|k: int| 0 <= k < i ==> lowercase((#[trigger] headers@[k]).0@) != "user-agent"@,
        decreases headers@.len() - i,
    {
        let l = to_lower(headers[i].0.as_str());
        if str_eq(l.as_str(), "user-agent") {
            return true;
        }
        i += 1;
    }
    false
}

/// The built-in `kitsune://` pages.
#[derive(Debug, Clone, Copy, PartialEq, Eq, Structural)]
pub enum InternalPage {
    Welcome,
    Shop,
    Privacy,
    NotFound,
}

/// `s` without its leading slashes.
pub open spec fn strip_slashes(s: Seq<char>) -> Seq<char>
    decreases s.len(),
{
    if s.len() > 0 && s[0] == '/' {
        strip_slashes(s.drop_first())
    } else {
        s
    }
}

/// The page an internal path (host followed by path) names.
pub open spec fn internal_page_of(path: Seq<char>) -> InternalPage {
    let p = strip_slashes(path);
    if p == "welcome"@ || p.len() == 0 {
        InternalPage::Welcome
    } else if p == "demo/shop"@ {
        InternalPage::Shop
    } else if p == "privacy"@ {
        InternalPage::Privacy
    } else {
        InternalPage::NotFound
    }
}

/// The page an internal path names; the HTTP status is 200 for a page and
/// 404 for `NotFound`.
pub fn internal_page(path: &str) -> (r: InternalPage)
    ensures
        r == internal_page_of(path@),
{
    let v = crate::text::chars_of(path);
    let mut a: usize = 0;
    assert(v@.subrange(0, v@.len() as int) =~= v@);
    while a < v.len() && v[a] == '/'
        invariant
            v@ == path@,
            a <= v@.len(),
            strip_slashes(path@) == strip_slashes(v@.subrange(a as int, v@.len() as int)),
        decreases v@.len() - a,
    {
        assert(v@.subrange(a as int, v@.len() as int).drop_first() =~= v@.subrange(
            a + 1,
            v@.len() as int,
        ));
        a += 1;
    }
    assert(v@.subrange(0, v@.len() as int) =~= v@);
    let mut rest: Vec<char> = Vec::new();
    let mut i = a;
    while i < v.len()
        invariant
            a <= i <= v@.len(),
            rest@ == v@.subrange(a as int, i as int),
        decreases v@.len() - i,
    {
        rest.push(v[i]);
        i += 1;
        assert(rest@ =~= v@.subrange(a as int, i as int));
    }
    let p = crate::text::string_of(rest.as_slice());
    let t = p.as_str();
    if str_eq(t, "welcome") || rest.len() == 0 {
        InternalPage::Welcome
    } else if str_eq(t, "demo/shop") {
        InternalPage::Shop
    } else if str_eq(t, "privacy") {
        InternalPage::Privacy
    } else {
        InternalPage::NotFound
    }
}

/// The status an internal page is served with: 404 for an unknown path,
/// else 200.
pub open spec fn internal_status_of(page: InternalPage) -> u16 {
    if page == InternalPage::NotFound { 404u16 } else { 200u16 }
}

/// The status an internal page is served with.
pub fn internal_status(page: InternalPage) -> (r: u16)
    ensures
        r == internal_status_of(page),
{
    match page {
        InternalPage::NotFound => 404,
        _ => 200,
    }
}

/// The page served for an unknown internal path.
pub const NOT_FOUND_PAGE: &'static str = "<html><head><title>Not Found</title></head><body style=\"background:#0d0f14;color:#e2e8f0;font-family:sans-serif;text-align:center;padding:50px\"><h1>404 Not Found</h1><p>Internal page not found</p></body></html>";

/// An empty privacy report.
pub fn empty_report() -> (r: PrivacyReport)
    ensures
        r.stripped_headers@.len() == 0,
        r.injected_headers@.len() == 0,
        r.blocked_trackers@.len() == 0,
        r.fingerprinting_vectors@.len() == 0,
{
    PrivacyReport {
        stripped_headers: Vec::new(),
        injected_headers: Vec::new(),
        blocked_trackers: Vec::new(),
        fingerprinting_vectors: Vec::new(),
    }
}

/// The response for a built-in page at `url`: `page_body` is the page's
/// file, served with 200; an unknown path gets the built-in 404 page
/// instead. Internal pages are HTML, count as secure, and pass no privacy
/// filter.
pub fn internal_response(page: InternalPage, page_body: Vec<u8>, url: String) -> (r: HttpResponse)
    ensures
        r.status == internal_status_of(page),
        page == InternalPage::NotFound ==> r.body@ == NOT_FOUND_PAGE.spec_bytes(),
        page != InternalPage::NotFound ==> r.body@ == page_body@,
        r.headers@.len() == 1,
        r.headers@[0].0@ == "Content-Type"@,
        r.headers@[0].1@ == "text/html"@,
        r.final_url == url,
        r.is_secure,
        r.is_internal,
        r.privacy_report.stripped_headers@.len() == 0,
        r.privacy_report.injected_headers@.len() == 0,
        r.privacy_report.blocked_trackers@.len() == 0,
        r.privacy_report.fingerprinting_vectors@.len() == 0,
{
    let body = match page {
        InternalPage::NotFound => vstd::slice::slice_to_vec(NOT_FOUND_PAGE.as_bytes()),
        _ => page_body,
    };
    let mut headers: Vec<(String, String)> = Vec::new();
    headers.push((to_owned_string("Content-Type"), to_owned_string("text/html")));
    HttpResponse {
        status: internal_status(page),
        headers,
        body,
        final_url: url,
        is_secure: true,
        is_internal: true,
        privacy_report: empty_report(),
    }
}

/// The most redirects a request follows.
pub const MAX_REDIRECTS: u32 = 10;

/// Count one more redirect: `None` when that exceeds the limit (the request
/// fails with "Too many redirects").
pub fn next_redirect(count: u32) -> (r: Option<u32>)
    ensures
        count < MAX_REDIRECTS ==> r == Some((count + 1) as u32),
        count >= MAX_REDIRECTS ==> r is None,
{
    if count >= MAX_REDIRECTS {
        None
    } else {
        Some(count + 1)
    }
}

/// A decimal digit's value.
pub open spec fn digit_val(c: char) -> int {
    (c as u32) - ('0' as u32)
}

/// Whether `c` is an ASCII decimal digit.
pub open spec fn is_digit(c: char) -> bool {
    '0' <= c <= '9'
}

/// The value of a string of decimal digits.
pub open spec fn decimal_value(s: Seq<char>) -> nat
    decreases s.len(),
{
    if s.len() == 0 {
        0
    } else {
        (decimal_value(s.drop_last()) * 10 + digit_val(s.last())) as nat
    }
}

/// `s` without one leading `+`.
pub open spec fn unsigned_digits(s: Seq<char>) -> Seq<char> {
    if s.len() > 0 && s[0] == '+' {
        s.drop_first()
    } else {
        s
    }
}

/// Every character of `d` is a decimal digit.
pub open spec fn all_digits(d: Seq<char>) -> bool {
    forall|i: int| 0 <= i < d.len() ==> is_digit(#[trigger] d[i])
}

/// `str::parse::<u64>`: an optional `+`, then one or more decimal digits,
/// whose value fits in a `u64`.
pub open spec fn parse_u64_spec(s: Seq<char>) -> Option<u64> {
    let d = unsigned_digits(s);
    if d.len() > 0 && all_digits(d) && decimal_value(d) <= u64::MAX {
        Some(decimal_value(d) as u64)
    } else {
        None
    }
}

/// The value of the first `n` digits grows with each digit.
proof fn lemma_decimal_monotone(s: Seq<char>, n: int)
    requires
        0 <= n <= s.len(),
        forall|i: int| 0 <= i < s.len() ==> is_digit(#[trigger] s[i]),
    ensures
        decimal_value(s.take(n)) <= decimal_value(s),
    decreases s.len() - n,
{
    if n < s.len() {
        lemma_decimal_monotone(s, n + 1);
        assert(s.take(n + 1).drop_last() =~= s.take(n));
    } else {
        assert(s.take(n) =~= s);
    }
}

/// Parse a decimal `u64` as `str::parse::<u64>` does.
pub fn parse_u64(s: &str) -> (r: Option<u64>)
    ensures
        r == parse_u64_spec(s@),
{
    let v = crate::text::chars_of(s);
    let start: usize = if v.len() > 0 && v[0] == '+' {
        1
    } else {
        0
    };
    let ghost d = unsigned_digits(s@);
    assert(d =~= v@.subrange(start as int, v@.len() as int));
    if start >= v.len() {
        return None;
    }
    let mut acc: u64 = 0;
    let mut i = start;
    while i < v.len()
        invariant
            v@ == s@,
            d == v@.subrange(start as int, v@.len() as int),
            d == unsigned_digits(s@),
            start < v@.len(),
            start <= i <= v@.len(),
            forall|k: int| 0 <= k < i - start ==> is_digit(#[trigger] d[k]),
            acc == decimal_value(d.take(i - start)),
        decreases v@.len() - i,
    {
        let c = v[i];
        if !('0' <= c && c <= '9') {
            assert(!is_digit(d[i - start]));
            return None;
        }
        let dv = (c as u32 - '0' as u32) as u64;
        assert(d.take(i - start + 1).drop_last() =~= d.take(i - start));
        assert(d.take(i - start + 1).last() == c);
        if acc > (u64::MAX - dv) / 10 {
            proof {
                assert(decimal_value(d.take(i - start + 1)) == acc * 10 + dv);
                assert(acc * 10 + dv > u64::MAX) by (nonlinear_arith)
                    requires
                        acc > (u64::MAX - dv) / 10,
                        dv <= 9,
                ;
                assert forall|k: int| 0 <= k < i - start + 1 implies is_digit(#[trigger] d[k]) by {
                }
                if all_digits(d) {
                    lemma_decimal_monotone(d, i - start + 1);
                }
            }
            return None;
        }
        assert(acc * 10 + dv <= u64::MAX) by (nonlinear_arith)
            requires
                acc <= (u64::MAX - dv) / 10,
                dv <= 9,
        ;
        acc = acc * 10 + dv;
        i += 1;
    }
    assert(d.take(d.len() as int) =~= d);
    Some(acc)
}

/// `s` up to its first comma (the first item of `str::split(',')`).
pub open spec fn first_item(s: Seq<char>) -> Seq<char> {
    match find_from(s, seq![','], 0) {
        Some(j) => s.take(j),
        None => s,
    }
}

/// The `max-age` a `Cache-Control` value announces: the text after the
/// first `max-age=` up to the next comma, trimmed and read as a `u64`.
pub open spec fn max_age_in(v: Seq<char>) -> Option<u64> {
    match find_from(v, "max-age="@, 0) {
        Some(p) => parse_u64_spec(trimmed(first_item(v.subrange(p + "max-age="@.len(), v.len() as int)))),
        None => None,
    }
}

/// Read the `max-age` of one `Cache-Control` value.
pub fn max_age_value(v: &str) -> (r: Option<u64>)
    ensures
        r == max_age_in(v@),
{
    let cs = chars_of(v);
    let pat = chars_of("max-age=");
    match find_chars(&cs, &pat) {
        None => None,
        Some(p) => {
            assert(crate::text::occurs_at(cs@, pat@, p as int));
            assert(cs@.len() == cs.len() && pat@.len() == pat.len());
            let start = p + pat.len();
            let mut rest: Vec<char> = Vec::new();
            let mut i = start;
            while i < cs.len()
                invariant
                    start <= i <= cs@.len(),
                    rest@ == cs@.subrange(start as int, i as int),
                decreases cs@.len() - i,
            {
                rest.push(cs[i]);
                i += 1;
                assert(rest@ =~= cs@.subrange(start as int, i as int));
            }
            let comma: Vec<char> = vec![','];
            assert(comma@ =~= seq![',']);
            let item: Vec<char> = match find_chars(&rest, &comma) {
                Some(j) => {
                    let mut t: Vec<char> = Vec::new();
                    let mut k: usize = 0;
                    while k < j
                        invariant
                            j <= rest@.len(),
                            k <= j,
                            t@ == rest@.take(k as int),
                        decreases j - k,
                    {
                        t.push(rest[k]);
                        k += 1;
                        assert(t@ =~= rest@.take(k as int));
                    }
                    t
                },
                None => rest,
            };
            let item_s = string_of(item.as_slice());
            let t = trim(item_s.as_str());
            parse_u64(t.as_str())
        },
    }
}

/// The max-age granted by a response's headers: that of the last
/// `Cache-Control` header (any case) carrying a readable `max-age`, else 0.
pub open spec fn max_age_of(h: Seq<(Seq<char>, Seq<char>)>) -> u64
    decreases h.len(),
{
    if h.len() == 0 {
        0
    } else if eq_ascii_ci(h.last().0, "cache-control"@) && max_age_in(h.last().1) is Some {
        max_age_in(h.last().1)->0
    } else {
        max_age_of(h.drop_last())
    }
}

/// The max-age (in seconds) for which a cached response stays fresh.
pub fn cached_max_age(headers: &Vec<(String, String)>) -> (r: u64)
    ensures
        r == max_age_of(hv(headers@)),
{
    let ghost h = hv(headers@);
    let mut max_age: u64 = 0;
    let mut i: usize = 0;
    while i < headers.len()
        invariant
            h == hv(headers@),
            i <= headers@.len(),
            max_age == max_age_of(h.take(i as int)),
        decreases headers@.len() - i,
    {
        assert(h.take(i + 1).drop_last() =~= h.take(i as int));
        assert(h.take(i + 1).last() == h[i as int]);
        if eq_ignore_ascii_case(headers[i].0.as_str(), "cache-control") {
            match max_age_value(headers[i].1.as_str()) {
                Some(age) => {
                    max_age = age;
                },
                None => {},
            }
        }
        i += 1;
    }
    assert(h.take(headers@.len() as int) =~= h);
    max_age
}

/// A response may be cached when some `Cache-Control` header (any case)
/// mentions `max-age=` and not `max-age=0`.
pub open spec fn cacheable(h: Seq<(Seq<char>, Seq<char>)>) -> bool {
    exists|k: int|
        0 <= k < h.len() && eq_ascii_ci((#[trigger] h[k]).0, "cache-control"@) && has_sub(
            h[k].1,
            "max-age="@,
        ) && !has_sub(h[k].1, "max-age=0"@)
}

/// What makes a response cacheable: adding a `Cache-Control` header (any
/// case) whose value mentions `max-age=` and not `max-age=0` makes any
/// header list cacheable, whatever else the value says; a header whose
/// value mentions `max-age=0` changes nothing; and without any `max-age=`
/// a response is never cacheable.
pub proof fn lemma_cacheability(h: Seq<(Seq<char>, Seq<char>)>, n: Seq<char>, v: Seq<char>)
    ensures
        eq_ascii_ci(n, "cache-control"@) && has_sub(v, "max-age="@) && !has_sub(v, "max-age=0"@)
            ==> cacheable(h.push((n, v))),
        has_sub(v, "max-age=0"@) ==> cacheable(h.push((n, v))) == cacheable(h),
        (forall|k: int| 0 <= k < h.len() ==> !has_sub((#[trigger] h[k]).1, "max-age="@)) ==> !cacheable(h),
{
    let h1 = h.push((n, v));
    if eq_ascii_ci(n, "cache-control"@) && has_sub(v, "max-age="@) && !has_sub(v, "max-age=0"@) {
        assert(h1[h.len() as int] == (n, v));
    }
    if has_sub(v, "max-age=0"@) {
        if cacheable(h1) {
            let k = choose|k: int|
                0 <= k < h1.len() && eq_ascii_ci((#[trigger] h1[k]).0, "cache-control"@) && has_sub(
                    h1[k].1,
                    "max-age="@,
                ) && !has_sub(h1[k].1, "max-age=0"@);
            assert(k < h.len());
            assert(h[k] == h1[k]);
        }
        if cacheable(h) {
            let k = choose|k: int|
                0 <= k < h.len() && eq_ascii_ci((#[trigger] h[k]).0, "cache-control"@) && has_sub(
                    h[k].1,
                    "max-age="@,
                ) && !has_sub(h[k].1, "max-age=0"@);
            assert(h1[k] == h[k]);
        }
    }
}

/// Whether a response with these headers is written to the cache.
pub fn is_cacheable(headers: &Vec<(String, String)>) -> (r: bool)
    ensures
        r == cacheable(hv(headers@)),
{
    let ghost h = hv(headers@);
    let mut i: usize = 0;
    while i < headers.len()
        invariant
            h == hv(headers@),
            i <= headers@.len(),
            forall|k: int|
                0 <= k < i ==> !(eq_ascii_ci((#[trigger] h[k]).0, "cache-control"@) && has_sub(
                    h[k].1,
                    "max-age="@,
                ) && !has_sub(h[k].1, "max-age=0"@)),
        decreases headers@.len() - i,
    {
        let k = headers[i].0.as_str();
        let v = headers[i].1.as_str();
        if eq_ignore_ascii_case(k, "cache-control") && str_contains(v, "max-age=") && !str_contains(
            v,
            "max-age=0",
        ) {
            assert(h[i as int].0 == k@ && h[i as int].1 == v@);
            return true;
        }
        i += 1;
    }
    false
}

/// Names what the lowercase hex SHA-256 digest of some bytes is.
pub uninterp spec fn sha256_hex(data: Seq<u8>) -> Seq<char>;

/// The lowercase hex SHA-256 digest of a string's UTF-8 bytes
/// (`sha2::Sha256`), named by `sha256_hex`.
#[verifier::external_body]
pub(crate) fn sha256_hex_of(s: &str) -> (r: String)
    ensures
        r@ == sha256_hex(vstd::string::StringSliceAdditionalSpecFns::spec_bytes(s)),
{
    let digest = <sha2::Sha256 as sha2::Digest>::digest(s.as_bytes());
    format!("{:x}", digest)
}

/// The cache key of a request: the SHA-256 of its URL, for GET requests
/// only.
pub fn cache_key(method: HttpMethod, url: &str) -> (r: Option<String>)
    ensures
        method == HttpMethod::Get ==> (r matches Some(k) && k@ == sha256_hex(
            vstd::string::StringSliceAdditionalSpecFns::spec_bytes(url),
        )),
        method != HttpMethod::Get ==> r is None,
{
    match method {
        HttpMethod::Get => Some(sha256_hex_of(url)),
        _ => None,
    }
}

/// The page served in place of the body for error statuses: 404 and 5xx.
pub open spec fn error_page_for(status: u16) -> Option<Seq<char>> {
    if status == 404 {
        Some("<html><body><h1>Page not found</h1><p>KitsuneEngine</p></body></html>"@)
    } else if status >= 500 {
        Some("<html><body><h1>Server error. Try again later.</h1></body></html>"@)
    } else {
        None
    }
}

/// The page served in place of the body for an error status, if any.
pub fn error_page(status: u16) -> (r: Option<String>)
    ensures
        match r {
            Some(p) => error_page_for(status) == Some(p@),
            None => error_page_for(status) is None,
        },
{
    if status == 404 {
        Some(to_owned_string("<html><body><h1>Page not found</h1><p>KitsuneEngine</p></body></html>"))
    } else if status >= 500 {
        Some(to_owned_string("<html><body><h1>Server error. Try again later.</h1></body></html>"))
    } else {
        None
    }
}

/// The page shown when a request fails: a slow-page notice on timeout, a
/// "can't find" notice naming the host for DNS failures, a privacy notice
/// for TLS failures, else a generic connection error.
pub open spec fn failure_page_for(is_timeout: bool, msg: Seq<char>, host: Seq<char>) -> Seq<char> {
    if is_timeout {
        "<html><body><h1>Page is taking too long.</h1><p>[Stop] [Retry]</p></body></html>"@
    } else if has_sub(msg, "dns"@) || has_sub(msg, "resolve"@) {
        "<html><body><h1>Can't find "@ + host
            + ". Check the address and try again.</h1></body></html>"@
    } else if has_sub(msg, "tls"@) || has_sub(msg, "certificate"@) {
        "<html><body><h1>Connection not private.</h1><p>[Details] [Go back]</p></body></html>"@
    } else {
        "<html><body><h1>Connection Error</h1></body></html>"@
    }
}

/// The page shown when a request fails with `msg`; `host` is the request's
/// host (or "domain" when it has none).
pub fn failure_page(is_timeout: bool, msg: &str, host: &str) -> (r: String)
    ensures
        r@ == failure_page_for(is_timeout, msg@, host@),
{
    if is_timeout {
        to_owned_string("<html><body><h1>Page is taking too long.</h1><p>[Stop] [Retry]</p></body></html>")
    } else if str_contains(msg, "dns") || str_contains(msg, "resolve") {
        let mut p = to_owned_string("<html><body><h1>Can't find ");
        push_str(&mut p, host);
        push_str(&mut p, ". Check the address and try again.</h1></body></html>");
        p
    } else if str_contains(msg, "tls") || str_contains(msg, "certificate") {
        to_owned_string(
            "<html><body><h1>Connection not private.</h1><p>[Details] [Go back]</p></body></html>",
        )
    } else {
        to_owned_string("<html><body><h1>Connection Error</h1></body></html>")
    }
}

} // verus!
