//! The engine's own state: whether it runs, and its tab strip.
use vstd::prelude::*;
use crate::tab::{close_tab, new_tab, Tab, TabState};
use crate::text::to_owned_string;

verus! {

/// What the engine keeps between calls besides its services: the tabs and
/// whether it has been started.
pub struct EngineState {
    /// Open tabs; a tab's id is its position when it was opened.
    pub tabs: Vec<Tab>,
    /// Whether the engine has been started and not shut down since.
    pub running: bool,
}

impl EngineState {
    /// A stopped engine with no tabs.
    pub fn new() -> (r: Self)
        ensures
            !r.running,
            r.tabs@.len() == 0,
    {
        EngineState { tabs: Vec::new(), running: false }
    }

    /// Start: the engine runs and gets one blank tab, with id 0.
    pub fn start(&mut self)
        ensures
            final(self).running,
            final(self).tabs@.len() == old(self).tabs@.len() + 1,
            final(self).tabs@.drop_last() == old(self).tabs@,
            final(self).tabs@.last().id == 0,
            final(self).tabs@.last().title@ == "New Tab"@,
            final(self).tabs@.last().state == TabState::Blank,
    {
        self.running = true;
        let tab = Tab::new(0, to_owned_string("New Tab"));
        self.tabs.push(tab);
        assert(self.tabs@.drop_last() =~= old(self).tabs@);
    }

    /// Stop: the engine no longer runs and all tabs are closed.
    pub fn shutdown(&mut self)
        ensures
            !final(self).running,
            final(self).tabs@.len() == 0,
    {
        self.running = false;
        self.tabs.clear();
    }

    /// Whether the engine runs.
    pub fn is_running(&self) -> (r: bool)
        ensures
            r == self.running,
    {
        self.running
    }

    /// Open a blank tab at the end of the strip and return its id (its
    /// position).
    pub fn new_tab(&mut self) -> (r: usize)
        requires
            old(self).tabs@.len() < usize::MAX,
        ensures
            r == old(self).tabs@.len(),
            final(self).tabs@.len() == old(self).tabs@.len() + 1,
            final(self).tabs@.drop_last() == old(self).tabs@,
            final(self).tabs@.last().id == r,
            final(self).tabs@.last().state == TabState::Blank,
            final(self).running == old(self).running,
    {
        new_tab(&mut self.tabs)
    }

    /// Close the tab at position `id`, if there is one.
    pub fn close_tab(&mut self, id: usize)
        ensures
            id < old(self).tabs@.len() ==> final(self).tabs@ == old(self).tabs@.remove(id as int),
            id >= old(self).tabs@.len() ==> final(self).tabs@ == old(self).tabs@,
            final(self).running == old(self).running,
    {
        close_tab(&mut self.tabs, id);
    }

    /// Start loading `url` in the tab at position `tab_id`, if there is one;
    /// the other tabs are left as they are.
    pub fn navigate(&mut self, tab_id: usize, url: &str)
        ensures
            final(self).tabs@.len() == old(self).tabs@.len(),
            final(self).running == old(self).running,
            forall|i: int|
                0 <= i < old(self).tabs@.len() && i != tab_id ==> final(self).tabs@[i]
                    == old(self).tabs@[i],
            tab_id < old(self).tabs@.len() ==> {
                let t = final(self).tabs@[tab_id as int];
                &&& t.url matches Some(u) && u@ == url@
                &&& t.state == TabState::Loading
                &&& t.is_loading
                &&& t.id == old(self).tabs@[tab_id as int].id
            },
    {
        if tab_id < self.tabs.len() {
            let mut tab = self.tabs.remove(tab_id);
            tab.navigate(url);
            self.tabs.insert(tab_id, tab);
        }
    }
}

} // verus!
