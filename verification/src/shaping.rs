//! The bookkeeping of the text-shaping cache: which `(text, size, colour)`
//! keys hold a shaped buffer, in least-recently-used order. The cache holds
//! at most 500 entries; when a new key takes it past that, the 100 oldest
//! go. The shaped buffers live with the text renderer, which shapes on a
//! miss and drops the buffers of the keys evicted here.
use vstd::prelude::*;
use crate::text::str_eq;

verus! {

/// Most entries the cache holds.
pub const MAX_CACHE_ENTRIES: usize = 500;

/// How many of the oldest entries go when the cache overflows.
pub const EVICT_COUNT: usize = 100;

/// What identifies shaped text: the text, the font size in hundredths of a
/// pixel, and the RGBA colour.
#[derive(Debug, Clone)]
pub struct TextCacheKey {
    pub text: String,
    pub font_size_u32: u32,
    pub color: [u8; 4],
}

/// A key by value.
pub type KeyView = (Seq<char>, u32, [u8; 4]);

impl View for TextCacheKey {
    type V = KeyView;

    open spec fn view(&self) -> KeyView {
        (self.text@, self.font_size_u32, self.color)
    }
}

/// The keys by value, oldest first.
pub open spec fn keys_view(v: Seq<TextCacheKey>) -> Seq<KeyView> {
    v.map_values(|k: TextCacheKey| k@)
}

/// No key appears twice.
pub open spec fn distinct_keys(s: Seq<KeyView>) -> bool {
    forall|i: int, j: int| 0 <= i < j < s.len() ==> s[i] != s[j]
}

/// The position of `k` in `s`, if it is there.
pub open spec fn key_index(s: Seq<KeyView>, k: KeyView) -> Option<int> {
    if exists|i: int| 0 <= i < s.len() && s[i] == k {
        Some(choose|i: int| 0 <= i < s.len() && s[i] == k)
    } else {
        None
    }
}

/// What looking up a key did.
#[derive(Debug)]
pub enum CacheStep {
    /// The key was cached: it is now the most recently used.
    Hit,
    /// The key was not cached: it must be shaped and stored, and the keys
    /// listed (oldest first) were evicted to make room.
    Miss { evicted: Vec<TextCacheKey> },
}

/// The cache state after looking up `k`: a hit moves the key to the back;
/// a miss appends it and, past the limit, drops the oldest entries.
pub open spec fn after_lookup(s: Seq<KeyView>, k: KeyView) -> Seq<KeyView> {
    match key_index(s, k) {
        Some(i) => s.remove(i).push(k),
        None => {
            let t = s.push(k);
            if t.len() > MAX_CACHE_ENTRIES {
                t.subrange(EVICT_COUNT as int, t.len() as int)
            } else {
                t
            }
        },
    }
}

/// The cached keys, least recently used first.
pub struct ShapingCache {
    lru: Vec<TextCacheKey>,
}

impl View for ShapingCache {
    type V = Seq<KeyView>;

    closed spec fn view(&self) -> Seq<KeyView> {
        keys_view(self.lru@)
    }
}

/// Whether two keys are the same by value.
fn same_key(a: &TextCacheKey, b: &TextCacheKey) -> (r: bool)
    ensures
        r == (a@ == b@),
{
    let same = str_eq(a.text.as_str(), b.text.as_str()) && a.font_size_u32 == b.font_size_u32
        && a.color[0] == b.color[0] && a.color[1] == b.color[1] && a.color[2] == b.color[2]
        && a.color[3] == b.color[3];
    proof {
        if a.color[0] == b.color[0] && a.color[1] == b.color[1] && a.color[2] == b.color[2]
            && a.color[3] == b.color[3] {
            assert(a.color =~= b.color);
        }
    }
    same
}

/// Moving an entry of a list without repeats to its back keeps it without
/// repeats.
proof fn lemma_move_to_back_distinct(s: Seq<KeyView>, i: int)
    requires
        distinct_keys(s),
        0 <= i < s.len(),
    ensures
        distinct_keys(s.remove(i).push(s[i])),
{
    let t = s.remove(i).push(s[i]);
    assert forall|a: int, b: int| 0 <= a < b < t.len() implies t[a] != t[b] by {
        let ia = if a < i { a } else { a + 1 };
        let ib = if b == t.len() - 1 { i } else if b < i { b } else { b + 1 };
        assert(t[a] == s[ia]);
        assert(t[b] == s[ib]);
    }
}

impl ShapingCache {
    /// The cache's invariant: no key twice, at most `MAX_CACHE_ENTRIES`.
    pub closed spec fn wf(&self) -> bool {
        &&& distinct_keys(self@)
        &&& self@.len() <= MAX_CACHE_ENTRIES
    }

    /// An empty cache.
    pub fn new() -> (r: Self)
        ensures
            r.wf(),
            r@.len() == 0,
    {
        let r = ShapingCache { lru: Vec::new() };
        assert(r@ =~= Seq::<KeyView>::empty());
        r
    }

    /// How many keys are cached.
    pub fn len(&self) -> (r: usize)
        ensures
            r == self@.len(),
    {
        self.lru.len()
    }

    /// Whether `k` is cached.
    pub fn contains(&self, k: &TextCacheKey) -> (r: bool)
        ensures
            r == (key_index(self@, k@) is Some),
    {
        self.position(k).is_some()
    }

    fn position(&self, k: &TextCacheKey) -> (r: Option<usize>)
        ensures
            match r {
                Some(i) => i < self@.len() && self@[i as int] == k@,
                None => key_index(self@, k@) is None,
            },
    {
        let mut i: usize = 0;
        while i < self.lru.len()
            invariant
                i <= self.lru@.len(),
                forall|j: int| 0 <= j < i ==> keys_view(self.lru@)[j] != k@,
            decreases self.lru@.len() - i,
        {
            if same_key(&self.lru[i], k) {
                return Some(i);
            }
            i += 1;
        }
        None
    }

    /// Look up the key of one text command before drawing it.
    pub fn lookup(&mut self, key: TextCacheKey) -> (r: CacheStep)
        requires
            old(self).wf(),
        ensures
            final(self).wf(),
            final(self)@ == after_lookup(old(self)@, key@),
            match r {
                CacheStep::Hit => key_index(old(self)@, key@) is Some,
                CacheStep::Miss { evicted } => {
                    &&& key_index(old(self)@, key@) is None
                    &&& keys_view(evicted@) == if old(self)@.len() + 1 > MAX_CACHE_ENTRIES {
                        old(self)@.push(key@).take(EVICT_COUNT as int)
                    } else {
                        Seq::empty()
                    }
                },
            },
    {
        let ghost s = self@;
        match self.position(&key) {
            Some(i) => {
                proof {
                    lemma_index_unique(s, i as int);
                    lemma_move_to_back_distinct(s, i as int);
                }
                let _old_key = self.lru.remove(i);
                self.lru.push(key);
                assert(self@ =~= s.remove(i as int).push(key@));
                CacheStep::Hit
            },
            None => {
                self.lru.push(key);
                let ghost t = s.push(key@);
                assert(self@ =~= t);
                let mut evicted: Vec<TextCacheKey> = Vec::new();
                if self.lru.len() > MAX_CACHE_ENTRIES {
                    let mut j: usize = 0;
                    while j < EVICT_COUNT
                        invariant
                            t.len() > MAX_CACHE_ENTRIES,
                            j <= EVICT_COUNT,
                            keys_view(evicted@) == t.take(j as int),
                            self@ == t.subrange(j as int, t.len() as int),
                            self.lru@.len() == t.len() - j,
                        decreases EVICT_COUNT - j,
                    {
                        let ghost before = self@;
                        let k = self.lru.remove(0);
                        assert(k@ == before[0]);
                        assert(before[0] == t[j as int]);
                        assert(self@ =~= before.drop_first());
                        let ghost before_ev = evicted@;
                        evicted.push(k);
                        assert(evicted@ == before_ev.push(k));
                        assert(keys_view(evicted@) =~= keys_view(before_ev).push(k@));
                        assert(keys_view(evicted@) =~= t.take(j + 1));
                        j += 1;
                    }
                    assert(self@ =~= t.subrange(EVICT_COUNT as int, t.len() as int));
                } else {
                    assert(keys_view(evicted@) =~= Seq::<KeyView>::empty());
                }
                CacheStep::Miss { evicted }
            },
        }
    }
}

/// In a list without repeats, the position of an entry is the one it is at.
proof fn lemma_index_unique(s: Seq<KeyView>, i: int)
    requires
        distinct_keys(s),
        0 <= i < s.len(),
    ensures
        key_index(s, s[i]) == Some(i),
{
    let w = choose|w: int| 0 <= w < s.len() && s[w] == s[i];
    assert(w == i) by {
        if w < i {
            assert(s[w] != s[i]);
        } else if w > i {
            assert(s[i] != s[w]);
        }
    }
}

/// The cache never holds more than `MAX_CACHE_ENTRIES` keys.
pub proof fn lemma_cache_bounded(c: &ShapingCache)
    requires
        c.wf(),
    ensures
        c@.len() <= MAX_CACHE_ENTRIES,
{
}

/// After any lookup the key looked up is cached, as the most recently used.
pub proof fn lemma_lookup_makes_newest(s: Seq<KeyView>, k: KeyView)
    requires
        s.len() <= MAX_CACHE_ENTRIES,
    ensures
        after_lookup(s, k).len() > 0,
        after_lookup(s, k).last() == k,
{
}

/// A hit changes only the order: the same keys stay cached.
pub proof fn lemma_hit_keeps_keys(s: Seq<KeyView>, k: KeyView)
    requires
        key_index(s, k) is Some,
    ensures
        after_lookup(s, k).len() == s.len(),
        forall|x: KeyView| s.contains(x) <==> after_lookup(s, k).contains(x),
{
    let i = key_index(s, k)->0;
    let t = s.remove(i).push(k);
    assert forall|x: KeyView| s.contains(x) implies t.contains(x) by {
        let w = choose|w: int| 0 <= w < s.len() && s[w] == x;
        if w < i {
            assert(t[w] == x);
        } else if w > i {
            assert(t[w - 1] == x);
        } else {
            assert(t[t.len() - 1] == x);
        }
    }
    assert forall|x: KeyView| t.contains(x) implies s.contains(x) by {
        let w = choose|w: int| 0 <= w < t.len() && t[w] == x;
        if w == t.len() - 1 {
            assert(s[i] == x);
        } else if w < i {
            assert(s[w] == x);
        } else {
            assert(s[w + 1] == x);
        }
    }
}

} // verus!
