//! The partitioned cookie jar: one cookie store per pair of request origin
//! and top-level origin, so that a cookie set while browsing one site is
//! never sent on behalf of another. What a store holds is named by
//! `cookie_pairs`; which of its cookies match a URL (and are unexpired) is
//! the cookie store's business.
use vstd::prelude::*;
use crate::css::stylesheet::first_index;
use crate::net::url_parse_host;
use crate::fetch::url_parts;
use crate::text::{has_prefix, has_suffix, push_str, string_of, to_owned_string, trimmed};

verus! {

#[verifier::external_type_specification]
#[verifier::external_body]
pub struct ExCookieStore(cookie_store::CookieStore);

/// The ASCII serialization of a URL's origin, or `None` when the text is
/// not a URL (`url::Url::parse`, `Url::origin`, `Origin::ascii_serialization`).
pub uninterp spec fn url_origin(url: Seq<char>) -> Option<Seq<char>>;

/// The origin of a URL, named by `url_origin`.
#[verifier::external_body]
pub(crate) fn origin_of(url: &str) -> (r: Option<String>)
    ensures
        match r {
            Some(o) => url_origin(url@) == Some(o@),
            None => url_origin(url@) is None,
        },
{
    match url::Url::parse(url) {
        Ok(u) => Some(u.origin().ascii_serialization()),
        Err(_) => None,
    }
}

/// The `(name, value)` pairs of the cookies a store holds, expired or not.
pub uninterp spec fn cookie_pairs(s: cookie_store::CookieStore) -> Set<(Seq<char>, Seq<char>)>;

/// The plain session cookies a store holds: host-only, with no expiry, and
/// neither Secure nor HttpOnly, as `(host, path, name, value)`.
pub uninterp spec fn plain_cookies(s: cookie_store::CookieStore) -> Set<
    (Seq<char>, Seq<char>, Seq<char>, Seq<char>),
>;

/// The index of the last `c` in `s`, if any.
pub open spec fn last_index(s: Seq<char>, c: char) -> Option<int>
    decreases s.len(),
{
    if s.len() == 0 {
        None
    } else if s.last() == c {
        Some(s.len() - 1)
    } else {
        last_index(s.drop_last(), c)
    }
}

/// The default cookie path for a request path (RFC 6265 5.1.4, as
/// `CookiePath::default_path` computes it for a URL that can be a base):
/// the path up to, not including, its last `/`, or `/` when that is the
/// first character or there is none.
pub open spec fn default_path(path: Seq<char>) -> Seq<char> {
    match last_index(path, '/') {
        Some(i) => path.take(if i > 1 {
            i
        } else {
            1
        }),
        None => "/"@,
    }
}

/// Whether cookie path `cp` path-matches request path `rp` (RFC 6265
/// 5.1.4, as `CookiePath::matches` tests it on an ASCII request path): `cp`
/// starts with `/`, and is `rp`, or a prefix of it that ends in `/` or is
/// followed by `/`.
pub open spec fn path_matches(cp: Seq<char>, rp: Seq<char>) -> bool {
    &&& has_prefix(cp, "/"@)
    &&& (cp == rp || (has_prefix(rp, cp) && (has_suffix(cp, "/"@) || (cp.len() < rp.len() && rp[cp.len() as int]
        == '/'))))
}

/// A host written only in lowercase ASCII letters, digits, `-` and `.`,
/// not starting with `.`: one that IDNA processing leaves as it is.
pub open spec fn plain_host(h: Seq<char>) -> bool {
    &&& h.len() > 0
    &&& h[0] != '.'
    &&& forall|i: int|
        0 <= i < h.len() ==> {
            let c = #[trigger] h[i];
            ('a' <= c && c <= 'z') || ('0' <= c && c <= '9') || c == '-' || c == '.'
        }
}

/// Whether the plain session cookie `e` is sent to `url`: an HTTP(S) URL
/// with `e`'s plain host, whose path `e`'s path path-matches.
pub open spec fn served_to(e: (Seq<char>, Seq<char>, Seq<char>, Seq<char>), url: Seq<char>) -> bool {
    &&& url_parse_host(url) == Some(Some(e.0))
    &&& plain_host(e.0)
    &&& (has_prefix(url, "http://"@) || has_prefix(url, "https://"@))
    &&& (url_parts(url) matches Some(p) && path_matches(e.1, p.2))
}

/// The `(name, value)` a `Set-Cookie` value carries, as the cookie crate's
/// parser reads it: the text before the first `;`, cut at its first `=`,
/// both sides trimmed; none without `=` or with an empty name.
pub open spec fn set_cookie_pair(cs: Seq<char>) -> Option<(Seq<char>, Seq<char>)> {
    let seg = match first_index(cs, ';') {
        Some(i) => cs.take(i),
        None => cs,
    };
    match first_index(seg, '=') {
        Some(i) => {
            let name = trimmed(seg.take(i));
            if name.len() > 0 {
                Some((name, trimmed(seg.skip(i + 1))))
            } else {
                None
            }
        },
        None => None,
    }
}

/// A `Set-Cookie` value with no attributes (so a session cookie for the
/// request's own host and default path) received over HTTP(S) from a URL
/// with a host: the store always takes it.
pub open spec fn plain_session_cookie(cs: Seq<char>, url: Seq<char>) -> bool {
    &&& first_index(cs, ';') is None
    &&& set_cookie_pair(cs) is Some
    &&& url_parse_host(url) matches Some(Some(_))
    &&& (has_prefix(url, "http://"@) || has_prefix(url, "https://"@))
}

/// The cookie a plain session cookie value from `url` becomes: for the
/// URL's host, at the default path of its path, with the value's name and
/// value.
pub open spec fn plain_entry(cs: Seq<char>, url: Seq<char>) -> Option<
    (Seq<char>, Seq<char>, Seq<char>, Seq<char>),
> {
    match (set_cookie_pair(cs), url_parse_host(url), url_parts(url)) {
        (Some(nv), Some(Some(h)), Some(p)) => Some((h, default_path(p.2), nv.0, nv.1)),
        _ => None,
    }
}

/// Whether store `st` holds the plain cookie that a plain session cookie
/// value `cs` from `url` becomes (trivially so for other values).
pub open spec fn takes_plain_cookie(st: cookie_store::CookieStore, cs: Seq<char>, url: Seq<char>) -> bool {
    plain_session_cookie(cs, url) && url_parts(url) is Some ==> (plain_entry(cs, url) matches Some(e)
        && plain_cookies(st).contains(e))
}

/// How a store's pairs change when a `Set-Cookie` value from `url` is
/// parsed into it: when the cookie is taken (always for a plain session
/// cookie), its pair is held afterwards, the pairs of other names stay, and
/// nothing else is added; otherwise the pairs are unchanged.
pub open spec fn parse_outcome(
    before: Set<(Seq<char>, Seq<char>)>,
    after: Set<(Seq<char>, Seq<char>)>,
    cs: Seq<char>,
    url: Seq<char>,
    taken: bool,
) -> bool {
    &&& (plain_session_cookie(cs, url) ==> taken)
    &&& (taken ==> (set_cookie_pair(cs) matches Some(p) && {
        &&& after.contains(p)
        &&& forall|q: (Seq<char>, Seq<char>)| before.contains(q) && q.0 != p.0 ==> #[trigger] after.contains(q)
        &&& forall|q: (Seq<char>, Seq<char>)| #[trigger] after.contains(q) ==> q == p || before.contains(q)
    }))
    &&& (!taken ==> after == before)
}

/// An empty cookie store (`CookieStore::default`). Claimed: it holds no
/// cookie.
#[verifier::external_body]
fn new_cookie_store() -> (r: cookie_store::CookieStore)
    ensures
        cookie_pairs(r) == Set::<(Seq<char>, Seq<char>)>::empty(),
        plain_cookies(r) == Set::<(Seq<char>, Seq<char>, Seq<char>, Seq<char>)>::empty(),
{
    cookie_store::CookieStore::default()
}

/// The unexpired cookies of `store` that match `url`, as `(name, value)`
/// pairs (`CookieStore::matches`). Claimed: every pair is one the store
/// holds, and every plain session cookie served to `url` (see `served_to`)
/// is among them: such a cookie never expires, its host key passes the
/// store's domain match (IDNA leaves a plain host as it is) and equals the
/// URL's host, its path passes the path match, and it has no Secure or
/// HttpOnly flag to filter on. Which other cookies match depends on the
/// clock (expiry) and on their domains, paths and flags, so no more is
/// stated.
#[verifier::external_body]
fn matching_cookies(store: &cookie_store::CookieStore, url: &str) -> (r: Vec<(String, String)>)
    ensures
        forall|k: int| 0 <= k < r@.len() ==> cookie_pairs(*store).contains((r@[k].0@, r@[k].1@)),
        forall|e: (Seq<char>, Seq<char>, Seq<char>, Seq<char>)|
            #[trigger] plain_cookies(*store).contains(e) && served_to(e, url@) ==> exists|k: int|
                0 <= k < r@.len() && (#[trigger] r@[k]).0@ == e.2 && r@[k].1@ == e.3,
{
    match url::Url::parse(url) {
        Ok(u) => store.matches(&u).into_iter().map(|c| (c.name().to_string(), c.value().to_string())).collect(),
        Err(_) => Vec::new(),
    }
}

/// Parse a `Set-Cookie` value received from `url` into `store`
/// (`CookieStore::parse`); whether the cookie was taken (inserted, or
/// replacing the one of the same domain, path and name). Claimed:
/// `parse_outcome`. A cookie is not taken when the URL or the value does
/// not parse, its domain does not match, it is HTTP-only from a non-HTTP
/// URL, or it is already expired; an expired one may then expire the
/// stored cookie of its name, which keeps its pair. Claimed besides: a
/// plain session cookie is then held as a plain cookie for the URL's host
/// at the default path of its path (`plain_entry`).
#[verifier::external_body]
fn store_parse(store: &mut cookie_store::CookieStore, cookie_str: &str, url: &str) -> (r: bool)
    ensures
        parse_outcome(cookie_pairs(*old(store)), cookie_pairs(*final(store)), cookie_str@, url@, r),
        takes_plain_cookie(*final(store), cookie_str@, url@),
{
    match url::Url::parse(url) {
        Ok(u) => match store.parse(cookie_str, &u) {
            Ok(cookie_store::StoreAction::Inserted) => true,
            Ok(cookie_store::StoreAction::UpdatedExisting) => true,
            Ok(cookie_store::StoreAction::ExpiredExisting) => false,
            Err(_) => false,
        },
        Err(_) => false,
    }
}

/// The partition key of a request: its origin and the top-level origin.
pub type PartitionKey = (Seq<char>, Seq<char>);

/// The store kept for `key`, if any.
pub open spec fn store_for(s: Seq<(PartitionKey, cookie_store::CookieStore)>, key: PartitionKey) -> Option<
    cookie_store::CookieStore,
>
    decreases s.len(),
{
    if s.len() == 0 {
        None
    } else if s.last().0 == key {
        Some(s.last().1)
    } else {
        store_for(s.drop_last(), key)
    }
}

/// A key with no store occurs at no position.
proof fn lemma_store_for_none(s: Seq<(PartitionKey, cookie_store::CookieStore)>, key: PartitionKey)
    requires
        store_for(s, key) is None,
    ensures
        forall|j: int| 0 <= j < s.len() ==> (#[trigger] s[j]).0 != key,
    decreases s.len(),
{
    if s.len() > 0 {
        lemma_store_for_none(s.drop_last(), key);
        assert forall|j: int| 0 <= j < s.len() implies (#[trigger] s[j]).0 != key by {
            if j < s.len() - 1 {
                assert(s[j] == s.drop_last()[j]);
            }
        }
    }
}

/// Replacing the store at the last position holding its key changes the
/// store found for that key only.
pub proof fn lemma_store_for_replace(
    s: Seq<(PartitionKey, cookie_store::CookieStore)>,
    i: int,
    x: cookie_store::CookieStore,
    k: PartitionKey,
)
    requires
        0 <= i < s.len(),
        forall|j: int| i < j < s.len() ==> (#[trigger] s[j]).0 != s[i].0,
    ensures
        store_for(s.update(i, (s[i].0, x)), k) == if k == s[i].0 {
            Some(x)
        } else {
            store_for(s, k)
        },
    decreases s.len(),
{
    let u = s.update(i, (s[i].0, x));
    if i == s.len() - 1 {
        assert(u.drop_last() =~= s.drop_last());
    } else {
        assert(u.drop_last() =~= s.drop_last().update(i, (s[i].0, x)));
        assert(u.last() == s.last());
        lemma_store_for_replace(s.drop_last(), i, x, k);
    }
}

/// The `Cookie` header line for `(name, value)` pairs: `name=value` joined
/// by `; `, none for no cookies.
pub open spec fn cookie_line(p: Seq<(Seq<char>, Seq<char>)>) -> Seq<char>
    decreases p.len(),
{
    if p.len() == 0 {
        Seq::empty()
    } else if p.len() == 1 {
        p[0].0 + "="@ + p[0].1
    } else {
        cookie_line(p.drop_last()) + "; "@ + p.last().0 + "="@ + p.last().1
    }
}

/// The header line for cookie pairs, `None` when there are none.
pub fn cookie_header_line(pairs: &Vec<(String, String)>) -> (r: Option<String>)
    ensures
        pairs@.len() == 0 ==> r is None,
        pairs@.len() > 0 ==> (r matches Some(l) && l@ == cookie_line(
            pairs@.map_values(|p: (String, String)| (p.0@, p.1@)),
        )),
{
    if pairs.len() == 0 {
        return None;
    }
    let ghost v = pairs@.map_values(|p: (String, String)| (p.0@, p.1@));
    let mut line = string_of(&[]);
    let mut i: usize = 0;
    while i < pairs.len()
        invariant
            v == pairs@.map_values(|p: (String, String)| (p.0@, p.1@)),
            0 < pairs@.len(),
            i <= pairs@.len(),
            line@ == cookie_line(v.take(i as int)),
        decreases pairs@.len() - i,
    {
        assert(v.take(i + 1).drop_last() =~= v.take(i as int));
        if i > 0 {
            push_str(&mut line, "; ");
        }
        push_str(&mut line, pairs[i].0.as_str());
        push_str(&mut line, "=");
        push_str(&mut line, pairs[i].1.as_str());
        proof {
            if i == 0 {
                assert(v.take(0) =~= Seq::<(Seq<char>, Seq<char>)>::empty());
            }
        }
        i += 1;
    }
    assert(v.take(pairs@.len() as int) =~= v);
    Some(line)
}

/// Whether `l` is the header line of some non-empty list of pairs, each
/// held by the store `st`.
pub open spec fn cookie_line_of_store(l: Seq<char>, st: cookie_store::CookieStore) -> bool {
    exists|ps: Seq<(Seq<char>, Seq<char>)>|
        ps.len() > 0 && (forall|k: int| 0 <= k < ps.len() ==> cookie_pairs(st).contains(#[trigger] ps[k]))
            && l == #[trigger] cookie_line(ps)
}

/// Whether `l` is the header line of a non-empty list of pairs held by
/// `st` that includes `name=value`.
pub open spec fn line_sends(l: Seq<char>, st: cookie_store::CookieStore, name: Seq<char>, value: Seq<char>) -> bool {
    exists|ps: Seq<(Seq<char>, Seq<char>)>|
        ps.len() > 0 && (forall|k: int| 0 <= k < ps.len() ==> cookie_pairs(st).contains(#[trigger] ps[k]))
            && ps.contains((name, value)) && l == #[trigger] cookie_line(ps)
}

/// The pairs of the store kept for `key`; none where there is no store.
pub open spec fn pairs_for(s: Seq<(PartitionKey, cookie_store::CookieStore)>, key: PartitionKey) -> Set<
    (Seq<char>, Seq<char>),
> {
    match store_for(s, key) {
        Some(st) => cookie_pairs(st),
        None => Set::empty(),
    }
}

/// Cookies are partitioned by (request origin, top-level origin): a plain
/// session cookie stored for a pair is held by that pair's store, while
/// every other pair's cookies stay exactly as they were (and a `Cookie`
/// line for a pair is made only of pairs its own store holds, as
/// `get_cookies` states).
pub proof fn lemma_cookie_partition(
    before: Seq<(PartitionKey, cookie_store::CookieStore)>,
    after: Seq<(PartitionKey, cookie_store::CookieStore)>,
    key: PartitionKey,
    cs: Seq<char>,
    url: Seq<char>,
    taken: bool,
)
    requires
        plain_session_cookie(cs, url),
        parse_outcome(pairs_for(before, key), pairs_for(after, key), cs, url, taken),
        forall|k: PartitionKey| k != key ==> #[trigger] store_for(after, k) == store_for(before, k),
    ensures
        set_cookie_pair(cs) matches Some(p) && pairs_for(after, key).contains(p),
        forall|k: PartitionKey| k != key ==> #[trigger] pairs_for(after, k) == pairs_for(before, k),
{
    assert forall|k: PartitionKey| k != key implies #[trigger] pairs_for(after, k) == pairs_for(before, k) by {
        assert(store_for(after, k) == store_for(before, k));
    }
}

/// `last_index` finds an occurrence, at or after any occurrence.
proof fn lemma_last_index(s: Seq<char>, c: char, j: int)
    requires
        0 <= j < s.len(),
        s[j] == c,
    ensures
        last_index(s, c) matches Some(i) && j <= i < s.len() && s[i] == c,
    decreases s.len(),
{
    if s.last() != c {
        assert(s.drop_last()[j] == c);
        lemma_last_index(s.drop_last(), c, j);
    }
}

/// A plain session cookie received from an HTTP(S) URL with a plain host
/// (whose path, as for every such URL, starts with `/`) becomes a cookie
/// that is served back to that same URL. With `store_cookie` (which puts
/// it in the pair's store) and `get_cookies` (which sends every served
/// plain cookie of the pair's store), a plain session cookie stored for a
/// URL and top-level origin comes back for that URL and top-level origin.
pub proof fn lemma_plain_cookie_served(cs: Seq<char>, url: Seq<char>)
    requires
        plain_session_cookie(cs, url),
        url_parts(url) matches Some(p) && has_prefix(p.2, "/"@),
        url_parse_host(url) matches Some(Some(h)) && plain_host(h),
    ensures
        plain_entry(cs, url) matches Some(e) && served_to(e, url),
{
    reveal_strlit("/");
    let rp = (url_parts(url)->0).2;
    assert(rp.subrange(0, 1) == "/"@);
    assert(rp[0] == '/') by {
        assert(rp.subrange(0, 1)[0] == rp[0]);
    }
    lemma_last_index(rp, '/', 0);
    let i = last_index(rp, '/')->0;
    let cp = default_path(rp);
    if i > 1 {
        assert(cp == rp.take(i));
        assert(cp.subrange(0, 1) =~= "/"@);
        assert(rp.subrange(0, cp.len() as int) =~= cp);
    } else {
        assert(cp == rp.take(1));
        assert(cp =~= "/"@);
        assert(rp.subrange(0, 1) =~= cp);
        assert(cp.subrange(0, 1) =~= "/"@);
        assert(cp.subrange(cp.len() - 1, cp.len() as int) =~= "/"@);
    }
    assert(path_matches(cp, rp));
}

/// Cookie stores partitioned by (request origin, top-level origin).
pub struct PartitionedCookieJar {
    stores: Vec<((String, String), cookie_store::CookieStore)>,
}

/// Whether no partition key occurs twice among the stores.
pub open spec fn keys_unique(s: Seq<(PartitionKey, cookie_store::CookieStore)>) -> bool {
    forall|i: int, j: int| 0 <= i < j < s.len() ==> (#[trigger] s[i]).0 != (#[trigger] s[j]).0
}

/// A list of stores by their keys' views.
pub open spec fn keyed(s: Seq<((String, String), cookie_store::CookieStore)>) -> Seq<(PartitionKey, cookie_store::CookieStore)> {
    s.map_values(|e: ((String, String), cookie_store::CookieStore)| ((e.0.0@, e.0.1@), e.1))
}

impl View for PartitionedCookieJar {
    type V = Seq<(PartitionKey, cookie_store::CookieStore)>;

    closed spec fn view(&self) -> Seq<(PartitionKey, cookie_store::CookieStore)> {
        keyed(self.stores@)
    }
}

impl PartitionedCookieJar {
    /// The jar's invariant: one store per partition, as in a map keyed by
    /// the partition.
    #[verifier::type_invariant]
    spec fn one_store_per_key(&self) -> bool {
        keys_unique(self@)
    }

    /// An empty jar.
    pub fn new() -> (r: Self)
        ensures
            forall|k: PartitionKey| store_for(r@, k) is None,
            keys_unique(r@),
    {
        let r = PartitionedCookieJar { stores: Vec::new() };
        assert(r@ =~= Seq::<(PartitionKey, cookie_store::CookieStore)>::empty());
        r
    }

    /// Index of the store for `(origin, top)`: the last one with that key.
    fn find(&self, origin: &str, top: &str) -> (r: Option<usize>)
        ensures
            match r {
                Some(i) => i < self@.len() && self@[i as int].0 == (origin@, top@) && store_for(
                    self@,
                    (origin@, top@),
                ) == Some(self@[i as int].1) && forall|j: int|
                    i < j < self@.len() ==> (#[trigger] self@[j]).0 != (origin@, top@),
                None => store_for(self@, (origin@, top@)) is None,
            },
    {
        let ghost s = self@;
        let ghost key = (origin@, top@);
        let mut i = self.stores.len();
        assert(s.take(i as int) =~= s);
        while i > 0
            invariant
                s == self@,
                s == keyed(self.stores@),
                i <= s.len(),
                key == (origin@, top@),
                store_for(s, key) == store_for(s.take(i as int), key),
                forall|j: int| i <= j < s.len() ==> (#[trigger] s[j]).0 != key,
            decreases i,
        {
            assert(s.take(i as int).drop_last() =~= s.take(i - 1));
            let e = &self.stores[i - 1];
            assert(s[i - 1] == ((e.0.0@, e.0.1@), e.1));
            if crate::text::str_eq(e.0.0.as_str(), origin) && crate::text::str_eq(e.0.1.as_str(), top) {
                assert(s[i - 1].0 == key);
                return Some(i - 1);
            }
            i -= 1;
        }
        None
    }

    /// The `Cookie` header to send for a request to `url` made on behalf of
    /// the top-level origin `top`: only the cookies of that pair's store
    /// are consulted; `None` when the URL does not parse, that pair has no
    /// store, or no cookie matches.
    pub fn get_cookies(&self, url: &str, top: &str) -> (r: Option<String>)
        ensures
            match url_origin(url@) {
                Some(o) => match store_for(self@, (o, top@)) {
                    Some(st) => {
                        &&& (r matches Some(l) ==> cookie_line_of_store(l@, st))
                        &&& forall|e: (Seq<char>, Seq<char>, Seq<char>, Seq<char>)|
                            #[trigger] plain_cookies(st).contains(e) && served_to(e, url@) ==> (r matches Some(l)
                                && line_sends(l@, st, e.2, e.3))
                    },
                    None => r is None,
                },
                None => r is None,
            },
    {
        let origin = match origin_of(url) {
            Some(o) => o,
            None => {
                return None;
            },
        };
        match self.find(origin.as_str(), top) {
            Some(i) => {
                let pairs = matching_cookies(&self.stores[i].1, url);
                let r = cookie_header_line(&pairs);
                proof {
                    let st = self@[i as int].1;
                    assert(self.stores@[i as int].1 == st);
                    let ps = pairs@.map_values(|p: (String, String)| (p.0@, p.1@));
                    if pairs@.len() > 0 {
                        assert forall|k: int| 0 <= k < ps.len() implies cookie_pairs(st).contains(#[trigger] ps[k]) by {
                            assert(ps[k] == (pairs@[k].0@, pairs@[k].1@));
                        }
                        assert(cookie_line_of_store(r->0@, st));
                    }
                    assert forall|e: (Seq<char>, Seq<char>, Seq<char>, Seq<char>)|
                        #[trigger] plain_cookies(st).contains(e) && served_to(e, url@) implies (r matches Some(l)
                            && line_sends(l@, st, e.2, e.3)) by {
                        let k = choose|k: int| 0 <= k < pairs@.len() && (#[trigger] pairs@[k]).0@ == e.2 && pairs@[k].1@ == e.3;
                        assert(ps[k] == (e.2, e.3));
                        assert forall|j: int| 0 <= j < ps.len() implies cookie_pairs(st).contains(#[trigger] ps[j]) by {
                            assert(ps[j] == (pairs@[j].0@, pairs@[j].1@));
                        }
                        assert(ps.contains((e.2, e.3)));
                        assert(line_sends(r->0@, st, e.2, e.3));
                    }
                }
                r
            },
            None => None,
        }
    }

    /// Store a `Set-Cookie` value received from `url` while browsing the
    /// top-level origin `top`, in that pair's store (created if needed): the
    /// store's pairs change as `parse_outcome` says (a plain session cookie
    /// is always taken). Every other pair's store is left exactly as it was.
    pub fn store_cookie(&mut self, url: &str, top: &str, cookie_str: &str)
        ensures
            match url_origin(url@) {
                Some(o) => {
                    &&& store_for(final(self)@, (o, top@)) is Some
                    &&& exists|taken: bool|
                        #[trigger] parse_outcome(
                            pairs_for(old(self)@, (o, top@)),
                            pairs_for(final(self)@, (o, top@)),
                            cookie_str@,
                            url@,
                            taken,
                        )
                    &&& (plain_session_cookie(cookie_str@, url@) && url_parts(url@) is Some ==> (plain_entry(
                        cookie_str@,
                        url@,
                    ) matches Some(e) && store_for(final(self)@, (o, top@)) matches Some(st)
                        && plain_cookies(st).contains(e)))
                    &&& forall|k: PartitionKey|
                        k != (o, top@) ==> #[trigger] store_for(final(self)@, k) == store_for(
                            old(self)@,
                            k,
                        )
                },
                None => final(self)@ == old(self)@,
            },
    {
        let origin = match origin_of(url) {
            Some(o) => o,
            None => {
                return;
            },
        };
        let ghost key = (origin@, top@);
        let ghost s0 = self@;
        proof {
            use_type_invariant(&*self);
        }
        let found = self.find(origin.as_str(), top);
        let mut stores: Vec<((String, String), cookie_store::CookieStore)> = Vec::new();
        std::mem::swap(&mut stores, &mut self.stores);
        assert(keyed(stores@) == s0);
        match found {
            Some(i) => {
                let ghost raw0 = stores@;
                let mut entry = stores.remove(i);
                let ghost before = cookie_pairs(entry.1);
                assert(entry.1 == s0[i as int].1);
                let taken = store_parse(&mut entry.1, cookie_str, url);
                let ghost x = entry.1;
                stores.insert(i, entry);
                proof {
                    assert(stores@ =~= raw0.update(i as int, entry));
                    assert(keyed(stores@) =~= s0.update(i as int, (key, x)));
                    assert(keys_unique(keyed(stores@))) by {
                        let t = keyed(stores@);
                        assert forall|a: int, b: int| 0 <= a < b < t.len() implies (#[trigger] t[a]).0 != (#[trigger] t[b]).0 by {
                            assert(t[a].0 == s0[a].0);
                            assert(t[b].0 == s0[b].0);
                        }
                    }
                    assert forall|k: PartitionKey| k != key implies #[trigger] store_for(keyed(stores@), k)
                        == store_for(s0, k) by {
                        lemma_store_for_replace(s0, i as int, x, k);
                    }
                    lemma_store_for_replace(s0, i as int, x, key);
                    assert(pairs_for(s0, key) == before);
                    assert(pairs_for(keyed(stores@), key) == cookie_pairs(x));
                    assert(parse_outcome(pairs_for(s0, key), pairs_for(keyed(stores@), key), cookie_str@, url@, taken));
                }
            },
            None => {
                let mut store = new_cookie_store();
                let taken = store_parse(&mut store, cookie_str, url);
                let ghost x = store;
                stores.push(((origin, to_owned_string(top)), store));
                proof {
                    let t = keyed(stores@);
                    assert(t.drop_last() =~= s0);
                    assert(t.last().0 == key);
                    assert(t.last().1 == x);
                    lemma_store_for_none(s0, key);
                    assert forall|a: int, b: int| 0 <= a < b < t.len() implies (#[trigger] t[a]).0 != (#[trigger] t[b]).0 by {
                        assert(t[a] == s0[a]);
                        if b < s0.len() {
                            assert(t[b] == s0[b]);
                        }
                    }
                    assert(pairs_for(s0, key) == Set::<(Seq<char>, Seq<char>)>::empty());
                    assert(pairs_for(t, key) == cookie_pairs(x));
                    assert(parse_outcome(pairs_for(s0, key), pairs_for(t, key), cookie_str@, url@, taken));
                }
            },
        }
        self.stores = stores;
    }
}

} // verus!
