//! Workspaces: open tabs over collections and environments.

use vstd::prelude::*;

use crate::appstate::{ActiveTab, RequestStatus, ResponseTab};
use crate::collection::Collection;
use crate::environment::Environment;
use crate::request::RequestState;
use crate::response::ResponseState;

verus! {

/// Persisted workspace metadata.
#[derive(Debug, Clone)]
pub struct WorkspaceFile {
    pub name: String,
    pub active_environment_idx: Option<usize>,
}

impl Default for WorkspaceFile {
    fn default() -> (r: WorkspaceFile)
        ensures
            r.name@ == Seq::<char>::empty(),
            r.active_environment_idx is None,
    {
        WorkspaceFile { name: String::new(), active_environment_idx: None }
    }
}

/// A single open request tab.
#[derive(Debug, Clone)]
pub struct RequestTab {
    pub request: RequestState,
    pub response: Option<ResponseState>,
    pub active_tab: ActiveTab,
    pub response_tab: ResponseTab,
    pub is_dirty: bool,
    pub collection_id: Option<String>,
    pub request_status: RequestStatus,
}

impl Default for RequestTab {
    /// A fresh tab over a fresh untitled request; the request's id is
    /// freshly drawn, so nothing is promised of it.
    fn default() -> (r: RequestTab)
        ensures
            r.request.name@ == "Untitled Request"@,
            r.request.url@ == Seq::<char>::empty(),
            r.response is None,
            r.active_tab == ActiveTab::Headers,
            r.response_tab == ResponseTab::Body,
            !r.is_dirty,
            r.collection_id is None,
            r.request_status is Idle,
    {
        RequestTab {
            request: RequestState::default(),
            response: None,
            active_tab: ActiveTab::Headers,
            response_tab: ResponseTab::Body,
            is_dirty: false,
            collection_id: None,
            request_status: RequestStatus::Idle,
        }
    }
}

/// Full in-memory workspace state.
#[derive(Debug, Clone)]
pub struct WorkspaceState {
    pub name: String,
    pub collections: Vec<Collection>,
    pub environments: Vec<Environment>,
    pub active_environment_idx: Option<usize>,
    pub open_tabs: Vec<RequestTab>,
    pub active_tab_idx: usize,
}

impl Default for WorkspaceState {
    fn default() -> (r: WorkspaceState)
        ensures
            r.name@ == Seq::<char>::empty(),
            r.collections@ == Seq::<Collection>::empty(),
            r.environments@ == Seq::<Environment>::empty(),
            r.active_environment_idx is None,
            r.open_tabs@ == Seq::<RequestTab>::empty(),
            r.active_tab_idx == 0,
    {
        WorkspaceState {
            name: String::new(),
            collections: Vec::new(),
            environments: Vec::new(),
            active_environment_idx: None,
            open_tabs: Vec::new(),
            active_tab_idx: 0,
        }
    }
}


impl WorkspaceState {
    /// Focus the next open tab, wrapping around; with no tabs, nothing
    /// changes.
    pub fn next_open_tab(&mut self)
        requires
            old(self).open_tabs@.len() == 0 || old(self).active_tab_idx < old(self).open_tabs@.len(),
        ensures
            final(self).open_tabs == old(self).open_tabs,
            final(self).name == old(self).name,
            final(self).collections == old(self).collections,
            final(self).environments == old(self).environments,
            final(self).active_environment_idx == old(self).active_environment_idx,
            old(self).open_tabs@.len() == 0 ==> final(self).active_tab_idx == old(self).active_tab_idx,
            old(self).open_tabs@.len() > 0 ==> final(self).active_tab_idx as int == (old(self).active_tab_idx + 1) % (old(self).open_tabs@.len() as int),
    {
        let len = self.open_tabs.len();
        if len == 0 {
            return;
        }
        self.active_tab_idx = (self.active_tab_idx + 1) % len;
    }

    /// Focus the previous open tab, wrapping around; with no tabs,
    /// nothing changes.
    pub fn prev_open_tab(&mut self)
        requires
            old(self).open_tabs@.len() == 0 || old(self).active_tab_idx < old(self).open_tabs@.len(),
        ensures
            final(self).open_tabs == old(self).open_tabs,
            final(self).name == old(self).name,
            final(self).collections == old(self).collections,
            final(self).environments == old(self).environments,
            final(self).active_environment_idx == old(self).active_environment_idx,
            old(self).open_tabs@.len() == 0 ==> final(self).active_tab_idx == old(self).active_tab_idx,
            old(self).open_tabs@.len() > 0 ==> final(self).active_tab_idx as int == (old(self).active_tab_idx + old(self).open_tabs@.len() - 1) % (old(self).open_tabs@.len() as int),
    {
        let len = self.open_tabs.len();
        if len == 0 {
            return;
        }
        let ghost i = self.active_tab_idx as int;
        let ghost l = len as int;
        self.active_tab_idx = if self.active_tab_idx == 0 {
            len - 1
        } else {
            self.active_tab_idx - 1
        };
        proof {
            if i == 0 {
                assert((i + l - 1) % l == l - 1) by (nonlinear_arith)
                    requires
                        i == 0,
                        l > 0,
                ;
            } else {
                assert((i + l - 1) % l == i - 1) by (nonlinear_arith)
                    requires
                        0 < i < l,
                ;
            }
        }
    }

    /// Close the active tab. A last closed tab is replaced by a fresh
    /// one; otherwise the active index is clamped to the end.
    pub fn close_active_tab(&mut self)
        requires
            old(self).open_tabs@.len() == 0 || old(self).active_tab_idx < old(self).open_tabs@.len(),
        ensures
            final(self).name == old(self).name,
            final(self).collections == old(self).collections,
            final(self).environments == old(self).environments,
            final(self).active_environment_idx == old(self).active_environment_idx,
            old(self).open_tabs@.len() == 0 ==> final(self).open_tabs == old(self).open_tabs && final(self).active_tab_idx == old(self).active_tab_idx,
            old(self).open_tabs@.len() == 1 ==> (final(self).open_tabs@.len() == 1 && final(self).active_tab_idx == 0 && final(self).open_tabs@[0].response is None),
            old(self).open_tabs@.len() > 1 ==> (final(self).open_tabs@ == old(self).open_tabs@.remove(old(self).active_tab_idx as int) && final(self).active_tab_idx as int == vstd::math::min(old(self).active_tab_idx as int, old(self).open_tabs@.len() - 2)),
    {
        let idx = self.active_tab_idx;
        let len = self.open_tabs.len();
        if len == 0 {
            return;
        }
        self.open_tabs.remove(idx);
        if self.open_tabs.is_empty() {
            self.open_tabs.push(RequestTab::default());
            self.active_tab_idx = 0;
        } else {
            let last = self.open_tabs.len() - 1;
            self.active_tab_idx = if self.active_tab_idx < last {
                self.active_tab_idx
            } else {
                last
            };
        }
    }
}

} // verus!
