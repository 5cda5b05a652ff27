//! Browser tabs: loading state, the favicon colour derived from the URL,
//! and opening and closing tabs in a tab strip.
use vstd::prelude::*;
use vstd::string::StringSliceAdditionalSpecFns;
use crate::navigation::NavigationHistory;
use crate::text::to_owned_string;

verus! {

/// Tab loading state.
#[derive(Debug, Clone, Copy, PartialEq, Eq, Structural)]
pub enum TabState {
    /// Blank/new tab.
    Blank,
    /// Loading page.
    Loading,
    /// Page loaded.
    Loaded,
    /// Error loading page.
    Error,
}

/// A browser tab.
#[derive(Debug, Clone)]
pub struct Tab {
    /// Tab ID.
    pub id: usize,
    /// Tab title.
    pub title: String,
    /// Current URL.
    pub url: Option<String>,
    /// Loading state.
    pub state: TabState,
    /// Whether the tab is fetching or parsing content.
    pub is_loading: bool,
    /// Whether this is the active tab.
    pub active: bool,
    /// Colour block standing in for the favicon.
    pub favicon_color: Option<[u8; 3]>,
    /// Navigation history.
    pub history: NavigationHistory,
}

/// The sum of a byte sequence.
pub open spec fn byte_sum(b: Seq<u8>) -> nat
    decreases b.len(),
{
    if b.len() == 0 {
        0
    } else {
        byte_sum(b.drop_last()) + b.last() as nat
    }
}

/// The favicon colour of a URL: the wrapping 32-bit sum of its UTF-8 bytes,
/// split into its bits 16..24, 8..16 and 0..8.
pub open spec fn favicon_of(url: Seq<u8>) -> [u8; 3] {
    let h = byte_sum(url) % 0x1_0000_0000;
    [((h / 65536) % 256) as u8, ((h / 256) % 256) as u8, (h % 256) as u8]
}

/// The favicon colour for a URL string.
pub fn favicon_color_for(url: &str) -> (r: [u8; 3])
    ensures
        r == favicon_of(url.spec_bytes()),
{
    let bytes = url.as_bytes();
    let mut hash: u32 = 0;
    let mut i: usize = 0;
    while i < bytes.len()
        invariant
            bytes@ == url.spec_bytes(),
            i <= bytes@.len(),
            hash == byte_sum(bytes@.take(i as int)) % 0x1_0000_0000,
        decreases bytes@.len() - i,
    {
        assert(bytes@.take(i + 1).drop_last() =~= bytes@.take(i as int));
        assert(bytes@.take(i + 1).last() == bytes@[i as int]);
        hash = hash.wrapping_add(bytes[i] as u32);
        i += 1;
    }
    assert(bytes@.take(bytes@.len() as int) =~= bytes@);
    let r0 = ((hash >> 16) & 0xFF) as u8;
    let r1 = ((hash >> 8) & 0xFF) as u8;
    let r2 = (hash & 0xFF) as u8;
    assert(r0 == ((hash / 65536) % 256) as u8) by (bit_vector)
        requires
            r0 == ((hash >> 16) & 0xFF) as u8,
    ;
    assert(r1 == ((hash / 256) % 256) as u8) by (bit_vector)
        requires
            r1 == ((hash >> 8) & 0xFF) as u8,
    ;
    assert(r2 == (hash % 256) as u8) by (bit_vector)
        requires
            r2 == (hash & 0xFF) as u8,
    ;
    [r0, r1, r2]
}

impl Tab {
    /// Create a new blank, active tab.
    pub fn new(id: usize, title: String) -> (r: Self)
        ensures
            r.id == id,
            r.title == title,
            r.url is None,
            r.state == TabState::Blank,
            !r.is_loading,
            r.active,
            r.favicon_color is None,
            r.history@.entries.len() == 0,
    {
        Tab {
            id,
            title,
            url: None,
            state: TabState::Blank,
            is_loading: false,
            active: true,
            favicon_color: None,
            history: NavigationHistory::new(),
        }
    }

    /// Start navigating to a URL: the tab is loading it.
    pub fn navigate(&mut self, url: &str)
        ensures
            final(self).url matches Some(u) && u@ == url@,
            final(self).state == TabState::Loading,
            final(self).is_loading,
            final(self).favicon_color == Some(favicon_of(url.spec_bytes())),
            final(self).id == old(self).id,
            final(self).title == old(self).title,
            final(self).active == old(self).active,
            final(self).history@ == old(self).history@,
    {
        self.url = Some(to_owned_string(url));
        self.state = TabState::Loading;
        self.is_loading = true;
        self.favicon_color = Some(favicon_color_for(url));
    }

    /// Mark as loaded with the page's title.
    pub fn loaded(&mut self, title: String)
        ensures
            final(self).title == title,
            final(self).state == TabState::Loaded,
            !final(self).is_loading,
            final(self).url == old(self).url,
            final(self).id == old(self).id,
    {
        self.title = title;
        self.state = TabState::Loaded;
        self.is_loading = false;
    }

    /// Mark as failed.
    pub fn error(&mut self)
        ensures
            final(self).state == TabState::Error,
            !final(self).is_loading,
            final(self).url == old(self).url,
            final(self).title == old(self).title,
            final(self).id == old(self).id,
    {
        self.state = TabState::Error;
        self.is_loading = false;
    }
}

/// Open a new blank tab titled "New Tab" at the end of the strip; its id is
/// its position.
pub fn new_tab(tabs: &mut Vec<Tab>) -> (r: usize)
    requires
        old(tabs)@.len() < usize::MAX,
    ensures
        r == old(tabs)@.len(),
        final(tabs)@.len() == old(tabs)@.len() + 1,
        final(tabs)@.drop_last() == old(tabs)@,
        final(tabs)@.last().id == r,
        final(tabs)@.last().title@ == "New Tab"@,
        final(tabs)@.last().state == TabState::Blank,
{
    let id = tabs.len();
    let tab = Tab::new(id, to_owned_string("New Tab"));
    tabs.push(tab);
    assert(tabs@.drop_last() =~= old(tabs)@);
    id
}

/// Close the tab at position `id`, if there is one.
pub fn close_tab(tabs: &mut Vec<Tab>, id: usize)
    ensures
        id < old(tabs)@.len() ==> final(tabs)@ == old(tabs)@.remove(id as int),
        id >= old(tabs)@.len() ==> final(tabs)@ == old(tabs)@,
{
    if id < tabs.len() {
        tabs.remove(id);
    }
}

/// Opening a tab and then closing it leaves the strip as it was.
pub proof fn lemma_open_close_restores(before: Seq<Tab>, opened: Seq<Tab>, t: Tab)
    requires
        opened == before.push(t),
    ensures
        opened.remove(before.len() as int) == before,
{
    assert(opened.remove(before.len() as int) =~= before);
}

} // verus!
