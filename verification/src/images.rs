//! The memory budget of the GPU image cache: which images stay resident,
//! in least-recently-used order, under a byte limit. The textures
//! themselves live with the renderer, which drops those this budget evicts.
use vstd::prelude::*;

verus! {

/// Opaque image identifier.
#[derive(Debug, Clone, Copy, Hash, PartialEq, Eq, Structural)]
pub struct ImageId(pub u64);

/// The default budget: 256 MiB.
pub const DEFAULT_MAX_BYTES: usize = 268_435_456;

/// The total size of a list of `(image, bytes)` entries.
pub open spec fn total_of(s: Seq<(ImageId, usize)>) -> nat
    decreases s.len(),
{
    if s.len() == 0 {
        0
    } else {
        total_of(s.drop_last()) + s.last().1 as nat
    }
}

/// Whether `id` is among the entries.
pub open spec fn holds(s: Seq<(ImageId, usize)>, id: ImageId) -> bool {
    exists|k: int| 0 <= k < s.len() && (#[trigger] s[k]).0 == id
}

/// No image appears twice.
pub open spec fn distinct_ids(s: Seq<(ImageId, usize)>) -> bool {
    forall|i: int, j: int| 0 <= i < j < s.len() ==> (#[trigger] s[i]).0 != (#[trigger] s[j]).0
}

/// How many of the oldest entries must go for the rest to fit in `max`.
pub open spec fn evict_count(s: Seq<(ImageId, usize)>, max: nat) -> nat
    decreases s.len(),
{
    if total_of(s) <= max || s.len() == 0 {
        0
    } else {
        1 + evict_count(s.drop_first(), max)
    }
}

/// The resident images, least recently used first, with their sizes.
pub struct ImageBudget {
    lru: Vec<(ImageId, usize)>,
    total_bytes: usize,
    max_bytes: usize,
}

/// The state of a budget: entries in LRU order and the byte limit.
pub struct BudgetView {
    pub entries: Seq<(ImageId, usize)>,
    pub max_bytes: nat,
}

impl View for ImageBudget {
    type V = BudgetView;

    closed spec fn view(&self) -> BudgetView {
        BudgetView { entries: self.lru@, max_bytes: self.max_bytes as nat }
    }
}

/// The entries of `s` that remain after evicting the oldest ones until the
/// rest fits in `max`.
pub open spec fn fitted(s: Seq<(ImageId, usize)>, max: nat) -> Seq<(ImageId, usize)> {
    s.subrange(evict_count(s, max) as int, s.len() as int)
}

/// Dropping the first entry lowers the total by its size.
proof fn lemma_total_drop_first(s: Seq<(ImageId, usize)>)
    requires
        s.len() > 0,
    ensures
        total_of(s) == s[0].1 + total_of(s.drop_first()),
    decreases s.len(),
{
    if s.len() > 1 {
        lemma_total_drop_first(s.drop_last());
        assert(s.drop_last().drop_first() =~= s.drop_first().drop_last());
    } else {
        assert(s.drop_last() =~= Seq::<(ImageId, usize)>::empty());
        assert(s.drop_first() =~= Seq::<(ImageId, usize)>::empty());
    }
}

/// Evicting until the rest fits leaves a list that fits.
pub proof fn lemma_fitted_fits(s: Seq<(ImageId, usize)>, max: nat)
    ensures
        total_of(fitted(s, max)) <= max,
        evict_count(s, max) <= s.len(),
    decreases s.len(),
{
    if total_of(s) <= max || s.len() == 0 {
        assert(fitted(s, max) =~= s);
        if s.len() == 0 {
            assert(total_of(s) == 0);
        }
    } else {
        lemma_fitted_fits(s.drop_first(), max);
        assert(fitted(s, max) =~= fitted(s.drop_first(), max));
    }
}

/// A subrange of a list without repeated images has none either.
proof fn lemma_distinct_subrange(s: Seq<(ImageId, usize)>, a: int, b: int)
    requires
        distinct_ids(s),
        0 <= a <= b <= s.len(),
    ensures
        distinct_ids(s.subrange(a, b)),
{
    assert forall|i: int, j: int| 0 <= i < j < b - a implies (#[trigger] s.subrange(a, b)[i]).0
        != (#[trigger] s.subrange(a, b)[j]).0 by {
        assert(s.subrange(a, b)[i] == s[a + i]);
        assert(s.subrange(a, b)[j] == s[a + j]);
    }
}

impl ImageBudget {
    /// The invariant: the recorded total is the sum of the sizes, no image
    /// appears twice, and the total fits the limit.
    pub closed spec fn wf(&self) -> bool {
        &&& self.total_bytes == total_of(self.lru@)
        &&& distinct_ids(self.lru@)
        &&& self.total_bytes <= self.max_bytes
    }

    /// An empty budget of `max_bytes`.
    pub fn new(max_bytes: usize) -> (r: Self)
        ensures
            r.wf(),
            r@.entries.len() == 0,
            r@.max_bytes == max_bytes,
    {
        ImageBudget { lru: Vec::new(), total_bytes: 0, max_bytes }
    }

    /// Total bytes of the resident images.
    pub fn total_bytes(&self) -> (r: usize)
        requires
            self.wf(),
        ensures
            r == total_of(self@.entries),
    {
        self.total_bytes
    }

    /// Whether `id` is resident.
    pub fn contains(&self, id: ImageId) -> (r: bool)
        ensures
            r == holds(self@.entries, id),
    {
        let mut i: usize = 0;
        while i < self.lru.len()
            invariant
                i <= self.lru@.len(),
                forall|k: int| 0 <= k < i ==> (#[trigger] self.lru@[k]).0 != id,
            decreases self.lru@.len() - i,
        {
            if self.lru[i].0 == id {
                return true;
            }
            i += 1;
        }
        false
    }

    /// Drop the oldest images until the total fits the limit; returns the
    /// dropped images, oldest first.
    fn evict_if_over_limit(&mut self) -> (r: Vec<ImageId>)
        requires
            old(self).total_bytes == total_of(old(self).lru@),
            distinct_ids(old(self).lru@),
        ensures
            final(self).wf(),
            final(self)@.max_bytes == old(self)@.max_bytes,
            final(self)@.entries == fitted(old(self)@.entries, old(self)@.max_bytes),
            r@ == old(self)@.entries.take(evict_count(old(self)@.entries, old(self)@.max_bytes) as int).map_values(
                |e: (ImageId, usize)| e.0,
            ),
    {
        let ghost s0 = self.lru@;
        let ghost max = self.max_bytes as nat;
        let mut start: usize = 0;
        proof {
            assert(s0.subrange(0, s0.len() as int) =~= s0);
        }
        while self.total_bytes > self.max_bytes && start < self.lru.len()
            invariant
                self.lru@ == s0,
                self.max_bytes == max,
                start <= s0.len(),
                self.total_bytes == total_of(s0.subrange(start as int, s0.len() as int)),
                evict_count(s0, max) == start + evict_count(s0.subrange(start as int, s0.len() as int), max),
            decreases s0.len() - start,
        {
            let ghost t = s0.subrange(start as int, s0.len() as int);
            proof {
                lemma_total_drop_first(t);
                assert(t.drop_first() =~= s0.subrange(start + 1, s0.len() as int));
            }
            self.total_bytes = self.total_bytes - self.lru[start].1;
            start += 1;
        }
        let ghost rest = s0.subrange(start as int, s0.len() as int);
        proof {
            if start == s0.len() {
                assert(rest.len() == 0);
            }
            assert(evict_count(rest, max) == 0);
            lemma_fitted_fits(s0, max);
            lemma_distinct_subrange(s0, start as int, s0.len() as int);
            if rest.len() == 0 {
                assert(total_of(rest) == 0);
            }
        }
        let mut evicted: Vec<ImageId> = Vec::new();
        let mut kept: Vec<(ImageId, usize)> = Vec::new();
        let mut i: usize = 0;
        while i < self.lru.len()
            invariant
                self.lru@ == s0,
                start <= s0.len(),
                i <= s0.len(),
                i <= start ==> evicted@ == s0.take(i as int).map_values(|e: (ImageId, usize)| e.0),
                i <= start ==> kept@.len() == 0,
                i > start ==> evicted@ == s0.take(start as int).map_values(|e: (ImageId, usize)| e.0),
                i > start ==> kept@ == s0.subrange(start as int, i as int),
            decreases s0.len() - i,
        {
            if i < start {
                let ghost before = evicted@;
                evicted.push(self.lru[i].0);
                assert(s0.take(i + 1).map_values(|e: (ImageId, usize)| e.0) =~= before.push(s0[i as int].0));
            } else {
                kept.push(self.lru[i]);
                assert(kept@ =~= s0.subrange(start as int, i + 1));
            }
            i += 1;
        }
        assert(kept@ =~= rest);
        self.lru = kept;
        evicted
    }

    /// Make `size_bytes` of image `id` resident, as the most recently used,
    /// unless it is resident already; then drop the oldest images until the
    /// total fits the limit. Returns the dropped images, oldest first.
    pub fn upload(&mut self, id: ImageId, size_bytes: usize) -> (r: Vec<ImageId>)
        requires
            old(self).wf(),
            holds(old(self)@.entries, id) || total_of(old(self)@.entries) + size_bytes <= usize::MAX,
        ensures
            final(self).wf(),
            final(self)@.max_bytes == old(self)@.max_bytes,
            holds(old(self)@.entries, id) ==> final(self)@ == old(self)@ && r@.len() == 0,
            !holds(old(self)@.entries, id) ==> ({
                let s = old(self)@.entries.push((id, size_bytes));
                &&& final(self)@.entries == fitted(s, old(self)@.max_bytes)
                &&& r@ == s.take(evict_count(s, old(self)@.max_bytes) as int).map_values(
                    |e: (ImageId, usize)| e.0,
                )
            }),
    {
        if self.contains(id) {
            return Vec::new();
        }
        let ghost s0 = self.lru@;
        self.total_bytes = self.total_bytes + size_bytes;
        self.lru.push((id, size_bytes));
        proof {
            assert(self.lru@.drop_last() =~= s0);
            assert forall|i: int, j: int| 0 <= i < j < self.lru@.len() implies (#[trigger] self.lru@[i]).0
                != (#[trigger] self.lru@[j]).0 by {
                if j == s0.len() {
                    assert(self.lru@[i] == s0[i]);
                }
            }
        }
        self.evict_if_over_limit()
    }

    /// Mark `id` as the most recently used image, if resident.
    pub fn touch(&mut self, id: ImageId)
        requires
            old(self).wf(),
        ensures
            final(self).wf(),
            final(self)@.max_bytes == old(self)@.max_bytes,
            !holds(old(self)@.entries, id) ==> final(self)@.entries == old(self)@.entries,
            holds(old(self)@.entries, id) ==> exists|k: int|
                0 <= k < old(self)@.entries.len() && (#[trigger] old(self)@.entries[k]).0 == id
                    && final(self)@.entries == old(self)@.entries.remove(k).push(
                    old(self)@.entries[k],
                ),
    {
        let ghost s0 = self.lru@;
        let ghost t0 = self.total_bytes;
        let ghost m0 = self.max_bytes;
        let mut i: usize = 0;
        while i < self.lru.len()
            invariant
                self.lru@ == s0,
                s0 == old(self)@.entries,
                m0 == old(self)@.max_bytes,
                self.total_bytes == t0,
                self.max_bytes == m0,
                t0 == total_of(s0),
                t0 <= m0,
                distinct_ids(s0),
                i <= s0.len(),
                forall|k: int| 0 <= k < i ==> (#[trigger] s0[k]).0 != id,
            decreases s0.len() - i,
        {
            if self.lru[i].0 == id {
                assert(holds(s0, id));
                let e = self.lru.remove(i);
                self.lru.push(e);
                proof {
                    let s1 = s0.remove(i as int).push(s0[i as int]);
                    assert(self.lru@ =~= s1);
                    lemma_total_move_to_back(s0, i as int);
                    assert forall|a: int, b: int| 0 <= a < b < s1.len() implies (#[trigger] s1[a]).0
                        != (#[trigger] s1[b]).0 by {
                        lemma_remove_index(s0, i as int, a);
                        lemma_remove_index(s0, i as int, b);
                    }
                }
                return;
            }
            i += 1;
        }
    }

    /// Drop image `id`, if resident.
    pub fn evict(&mut self, id: ImageId)
        requires
            old(self).wf(),
        ensures
            final(self).wf(),
            final(self)@.max_bytes == old(self)@.max_bytes,
            !holds(old(self)@.entries, id) ==> final(self)@.entries == old(self)@.entries,
            holds(old(self)@.entries, id) ==> exists|k: int|
                0 <= k < old(self)@.entries.len() && (#[trigger] old(self)@.entries[k]).0 == id
                    && final(self)@.entries == old(self)@.entries.remove(k),
    {
        let ghost s0 = self.lru@;
        let ghost m0 = self.max_bytes;
        let mut i: usize = 0;
        while i < self.lru.len()
            invariant
                self.lru@ == s0,
                s0 == old(self)@.entries,
                m0 == old(self)@.max_bytes,
                self.total_bytes == total_of(s0),
                self.max_bytes == m0,
                self.total_bytes <= m0,
                distinct_ids(s0),
                i <= s0.len(),
                forall|k: int| 0 <= k < i ==> (#[trigger] s0[k]).0 != id,
            decreases s0.len() - i,
        {
            if self.lru[i].0 == id {
                assert(holds(s0, id));
                proof {
                    lemma_total_remove(s0, i as int);
                    lemma_distinct_remove(s0, i as int);
                }
                let e = self.lru.remove(i);
                self.total_bytes = self.total_bytes - e.1;
                return;
            }
            i += 1;
        }
    }
}

/// Removing entry `k` lowers the total by its size.
proof fn lemma_total_remove(s: Seq<(ImageId, usize)>, k: int)
    requires
        0 <= k < s.len(),
    ensures
        total_of(s) == total_of(s.remove(k)) + s[k].1,
    decreases s.len(),
{
    if k == s.len() - 1 {
        assert(s.remove(k) =~= s.drop_last());
    } else {
        lemma_total_remove(s.drop_last(), k);
        assert(s.remove(k).drop_last() =~= s.drop_last().remove(k));
        assert(s.remove(k).last() == s.last());
    }
}

/// Moving entry `k` to the back keeps the total.
proof fn lemma_total_move_to_back(s: Seq<(ImageId, usize)>, k: int)
    requires
        0 <= k < s.len(),
    ensures
        total_of(s.remove(k).push(s[k])) == total_of(s),
{
    lemma_total_remove(s, k);
    assert(s.remove(k).push(s[k]).drop_last() =~= s.remove(k));
}

/// Removing an entry keeps the images distinct.
proof fn lemma_distinct_remove(s: Seq<(ImageId, usize)>, k: int)
    requires
        0 <= k < s.len(),
        distinct_ids(s),
    ensures
        distinct_ids(s.remove(k)),
{
    let t = s.remove(k);
    assert forall|a: int, b: int| 0 <= a < b < t.len() implies (#[trigger] t[a]).0 != (#[trigger] t[b]).0 by {
        lemma_remove_index(s, k, a);
        lemma_remove_index(s, k, b);
        lemma_remove_index_lt(s, k, a);
        lemma_remove_index_lt(s, k, b);
    }
}

/// The entries of `s.remove(k).push(s[k])`, by index in `s`.
proof fn lemma_remove_index(s: Seq<(ImageId, usize)>, k: int, a: int)
    requires
        0 <= k < s.len(),
        0 <= a < s.len(),
    ensures
        a < s.len() - 1 ==> s.remove(k)[a] == if a < k { s[a] } else { s[a + 1] },
        s.remove(k).push(s[k])[a] == if a < s.len() - 1 {
            if a < k { s[a] } else { s[a + 1] }
        } else {
            s[k]
        },
{
    let t = s.remove(k);
    assert(t =~= s.subrange(0, k) + s.subrange(k + 1, s.len() as int));
    if a < s.len() - 1 {
        if a < k {
            assert(t[a] == s.subrange(0, k)[a]);
        } else {
            assert(t[a] == s.subrange(k + 1, s.len() as int)[a - k]);
        }
    }
}

/// Indexing a removal, for indices inside it.
proof fn lemma_remove_index_lt(s: Seq<(ImageId, usize)>, k: int, a: int)
    requires
        0 <= k < s.len(),
        0 <= a < s.len() - 1,
    ensures
        s.remove(k)[a] == if a < k { s[a] } else { s[a + 1] },
{
    lemma_remove_index(s, k, a);
}

/// A well-formed budget never holds more than its limit.
pub proof fn lemma_budget_respected(b: &ImageBudget)
    requires
        b.wf(),
    ensures
        total_of(b@.entries) <= b@.max_bytes,
        distinct_ids(b@.entries),
{
}

/// Eviction takes the oldest entries only: the newest entry stays when it
/// fits the limit on its own, so an uploaded image no larger than the
/// budget is resident after the upload.
pub proof fn lemma_newest_survives(s: Seq<(ImageId, usize)>, max: nat)
    requires
        s.len() > 0,
        s.last().1 <= max,
    ensures
        evict_count(s, max) < s.len(),
        fitted(s, max).last() == s.last(),
    decreases s.len(),
{
    if total_of(s) <= max {
    } else if s.len() == 1 {
        assert(s.drop_last() =~= Seq::<(ImageId, usize)>::empty());
        assert(total_of(s.drop_last()) == 0);
        assert(total_of(s) == s.last().1);
    } else {
        lemma_newest_survives(s.drop_first(), max);
    }
}

/// The texture bytes of a `width` × `height` RGBA image.
pub fn texture_bytes(width: u32, height: u32) -> (r: usize)
    requires
        width * height * 4 <= u32::MAX,
    ensures
        r == width * height * 4,
{
    let w = width as u64;
    let h = height as u64;
    assert(w * h * 4 <= u32::MAX) by (nonlinear_arith)
        requires
            width * height * 4 <= u32::MAX,
            w == width,
            h == height,
    ;
    let b: u32 = (w * h * 4) as u32;
    b as usize
}

} // verus!
