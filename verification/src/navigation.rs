//! Navigation history for a browser tab: a list of visited entries and a
//! cursor. Pushing while back in history discards the forward entries.
use vstd::prelude::*;
use crate::clock::now_millis;

verus! {

/// A single entry in the navigation history.
#[derive(Debug, Clone)]
pub struct NavigationEntry {
    /// The visited URL (serialized).
    pub url: String,
    /// The page title.
    pub title: String,
    /// When the entry was pushed, in milliseconds since the Unix epoch.
    pub timestamp_ms: i64,
}

/// Navigation history for a single tab.
#[derive(Debug, Clone)]
pub struct NavigationHistory {
    entries: Vec<NavigationEntry>,
    current: usize,
}

/// The abstract history: its entries and the cursor.
pub struct HistoryModel {
    pub entries: Seq<NavigationEntry>,
    pub current: int,
}

/// Whether the cursor can move back.
pub open spec fn can_back(h: HistoryModel) -> bool {
    h.current > 0
}

/// Whether the cursor can move forward.
pub open spec fn can_forward(h: HistoryModel) -> bool {
    h.entries.len() > 0 && h.current < h.entries.len() - 1
}

/// The history after visiting `e`: forward entries are dropped and the
/// cursor points at the new last entry.
pub open spec fn pushed(h: HistoryModel, e: NavigationEntry) -> HistoryModel {
    let kept = if can_forward(h) {
        h.entries.take(h.current + 1)
    } else {
        h.entries
    };
    HistoryModel { entries: kept.push(e), current: kept.len() as int }
}

/// The entry under the cursor.
pub open spec fn current_of(h: HistoryModel) -> Option<NavigationEntry> {
    if 0 <= h.current < h.entries.len() {
        Some(h.entries[h.current])
    } else {
        None
    }
}

impl View for NavigationHistory {
    type V = HistoryModel;

    closed spec fn view(&self) -> HistoryModel {
        HistoryModel { entries: self.entries@, current: self.current as int }
    }
}

impl NavigationHistory {
    /// Create a new, empty navigation history.
    pub fn new() -> (r: Self)
        ensures
            r@.entries.len() == 0,
            r@.current == 0,
    {
        NavigationHistory { entries: Vec::new(), current: 0 }
    }

    /// Push a new entry (stamped with the current time).
    pub fn push(&mut self, url: String, title: String)
        requires
            old(self)@.entries.len() < usize::MAX,
        ensures
            final(self)@ == pushed(old(self)@, final(self)@.entries.last()),
            final(self)@.entries.last().url == url,
            final(self)@.entries.last().title == title,
    {
        let now = now_millis();
        self.push_at(url, title, now)
    }

    /// Push a new entry stamped `timestamp_ms`.
    pub fn push_at(&mut self, url: String, title: String, timestamp_ms: i64)
        requires
            old(self)@.entries.len() < usize::MAX,
        ensures
            final(self)@ == pushed(old(self)@, NavigationEntry { url, title, timestamp_ms }),
    {
        let ghost h = self@;
        if !self.entries.is_empty() && self.current < self.entries.len() - 1 {
            self.entries.truncate(self.current + 1);
        }
        self.entries.push(NavigationEntry { url, title, timestamp_ms });
        self.current = self.entries.len() - 1;
        proof {
            let kept = if can_forward(h) {
                h.entries.take(h.current + 1)
            } else {
                h.entries
            };
            assert(self@.entries =~= kept.push(NavigationEntry { url, title, timestamp_ms }));
        }
    }

    /// Go back in history.
    pub fn back(&mut self) -> (r: Option<&NavigationEntry>)
        ensures
            can_back(old(self)@) ==> final(self)@ == (HistoryModel {
                entries: old(self)@.entries,
                current: old(self)@.current - 1,
            }),
            !can_back(old(self)@) ==> final(self)@ == old(self)@ && r is None,
            match r {
                Some(e) => current_of(final(self)@) == Some(*e),
                None => !can_back(old(self)@) || current_of(final(self)@) is None,
            },
    {
        if self.can_go_back() {
            self.current -= 1;
            self.current()
        } else {
            None
        }
    }

    /// Go forward in history.
    pub fn forward(&mut self) -> (r: Option<&NavigationEntry>)
        ensures
            can_forward(old(self)@) ==> final(self)@ == (HistoryModel {
                entries: old(self)@.entries,
                current: old(self)@.current + 1,
            }),
            !can_forward(old(self)@) ==> final(self)@ == old(self)@ && r is None,
            match r {
                Some(e) => current_of(final(self)@) == Some(*e),
                None => !can_forward(old(self)@),
            },
    {
        if self.can_go_forward() {
            assert(self.entries@.len() == self.entries.len());
            self.current += 1;
            self.current()
        } else {
            None
        }
    }

    /// Get the current history entry.
    pub fn current(&self) -> (r: Option<&NavigationEntry>)
        ensures
            match r {
                Some(e) => current_of(self@) == Some(*e),
                None => current_of(self@) is None,
            },
    {
        if self.current < self.entries.len() {
            Some(&self.entries[self.current])
        } else {
            None
        }
    }

    /// Check if we can go back.
    pub fn can_go_back(&self) -> (r: bool)
        ensures
            r == can_back(self@),
    {
        self.current > 0
    }

    /// Check if we can go forward.
    pub fn can_go_forward(&self) -> (r: bool)
        ensures
            r == can_forward(self@),
    {
        !self.entries.is_empty() && self.current < self.entries.len() - 1
    }

    /// Push a new state without reloading; the history changes as for `push`.
    pub fn push_state(&mut self, url: String, title: String)
        requires
            old(self)@.entries.len() < usize::MAX,
        ensures
            final(self)@ == pushed(old(self)@, final(self)@.entries.last()),
            final(self)@.entries.last().url == url,
            final(self)@.entries.last().title == title,
    {
        self.push(url, title)
    }
}

impl Default for NavigationHistory {
    fn default() -> (r: Self)
        ensures
            r@.entries.len() == 0,
            r@.current == 0,
    {
        Self::new()
    }
}

/// After a visit, the visited entry is current and there is nothing to go
/// forward to.
pub proof fn lemma_push_then_current(h: HistoryModel, e: NavigationEntry)
    requires
        0 <= h.current,
    ensures
        current_of(pushed(h, e)) == Some(e),
        !can_forward(pushed(h, e)),
{
}

/// Going back and then forward returns to the same entry, with the same
/// history.
pub proof fn lemma_back_then_forward(h: HistoryModel)
    requires
        can_back(h),
        h.current < h.entries.len(),
    ensures
        can_forward(HistoryModel { entries: h.entries, current: h.current - 1 }),
        (HistoryModel { entries: h.entries, current: h.current - 1 + 1 }) == h,
{
}

/// Visiting a page after going back discards exactly the entries after the
/// cursor: the entries up to the cursor are kept in order.
pub proof fn lemma_push_keeps_past(h: HistoryModel, e: NavigationEntry)
    requires
        0 <= h.current < h.entries.len(),
    ensures
        pushed(h, e).entries.len() == h.current + 2,
        forall|i: int| 0 <= i <= h.current ==> #[trigger] pushed(h, e).entries[i] == h.entries[i],
{
}

} // verus!
