//! The open tabs of the editor.

use vstd::prelude::*;

verus! {

/// The number of a document.
#[derive(Clone, Copy, PartialEq, Eq, Debug, Structural)]
pub struct DocumentId(pub usize);

/// The position of the first tab of the document `id`, if there is one.
pub open spec fn tab_of(tabs: Seq<DocumentId>, id: DocumentId) -> Option<int>
    decreases tabs.len(),
{
    if tabs.len() == 0 {
        None
    } else {
        match tab_of(tabs.drop_last(), id) {
            Some(i) => Some(i),
            None => if tabs.last() == id {
                Some(tabs.len() - 1)
            } else {
                None
            },
        }
    }
}

proof fn lemma_tab_found(tabs: Seq<DocumentId>, id: DocumentId, i: int)
    requires
        0 <= i < tabs.len(),
        tabs[i] == id,
        forall|s: int| 0 <= s < i ==> tabs[s] != id,
    ensures
        tab_of(tabs, id) == Some(i),
    decreases tabs.len(),
{
    if i == tabs.len() - 1 {
        lemma_tab_missing(tabs.drop_last(), id);
    } else {
        lemma_tab_found(tabs.drop_last(), id, i);
    }
}

proof fn lemma_tab_missing(tabs: Seq<DocumentId>, id: DocumentId)
    requires
        forall|s: int| 0 <= s < tabs.len() ==> tabs[s] != id,
    ensures
        tab_of(tabs, id) is None,
    decreases tabs.len(),
{
    if tabs.len() > 0 {
        lemma_tab_missing(tabs.drop_last(), id);
    }
}

/// Which documents are open in tabs, and which tab is selected.
#[derive(Debug)]
pub struct TabLayoutState {
    pub tabs: Vec<DocumentId>,
    pub selected_tab: Option<DocumentId>,
}

impl TabLayoutState {
    /// No tabs.
    pub fn new() -> (state: TabLayoutState)
        ensures
            state.tabs@.len() == 0,
            state.selected_tab is None,
    {
        TabLayoutState { tabs: Vec::new(), selected_tab: None }
    }

    fn find(&self, id: DocumentId) -> (found: Option<usize>)
        ensures
            match found {
                Some(i) => tab_of(self.tabs@, id) == Some(i as int) && i < self.tabs@.len(),
                None => tab_of(self.tabs@, id) is None,
            },
    {
        let mut i: usize = 0;
        while i < self.tabs.len()
            invariant
                i <= self.tabs.len(),
                forall|s: int| 0 <= s < i ==> self.tabs@[s] != id,
            decreases self.tabs.len() - i,
        {
            if self.tabs[i].0 == id.0 {
                proof {
                    lemma_tab_found(self.tabs@, id, i as int);
                }
                return Some(i);
            }
            i += 1;
        }
        proof {
            lemma_tab_missing(self.tabs@, id);
        }
        None
    }

    /// Selects the tab of the document `id`, and opens one behind all
    /// others if there is none. Tells whether a tab was opened.
    pub fn open_or(&mut self, id: DocumentId) -> (opened: bool)
        ensures
            opened == (tab_of(old(self).tabs@, id) is None),
            final(self).tabs@ == if opened {
                old(self).tabs@.push(id)
            } else {
                old(self).tabs@
            },
            final(self).selected_tab == Some(id),
    {
        let opened = match self.find(id) {
            Some(_) => false,
            None => {
                self.tabs.push(id);
                true
            },
        };
        self.selected_tab = Some(id);
        opened
    }

    /// Closes the first tab of the document `id`, if there is one, and
    /// selects no tab if that one was selected. Tells whether a tab was closed.
    pub fn close(&mut self, id: DocumentId) -> (closed: bool)
        ensures
            closed == (tab_of(old(self).tabs@, id) is Some),
            final(self).tabs@ == match tab_of(old(self).tabs@, id) {
                Some(i) => old(self).tabs@.remove(i),
                None => old(self).tabs@,
            },
            final(self).selected_tab == if closed && old(self).selected_tab == Some(id) {
                None
            } else {
                old(self).selected_tab
            },
    {
        match self.find(id) {
            Some(i) => {
                self.tabs.remove(i);
                match self.selected_tab {
                    Some(selected) => {
                        if selected.0 == id.0 {
                            self.selected_tab = None;
                        }
                    },
                    None => {},
                }
                true
            },
            None => false,
        }
    }
}

} // verus!
