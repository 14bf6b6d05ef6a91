//! Which pane holds the keyboard focus.

use vstd::prelude::*;

verus! {

#[derive(Debug, Clone, PartialEq, Eq, Structural)]
pub enum Focus {
    Sidebar,
    RequestTabs,
    UrlBar,
    TabBar,
    Editor,
    ResponseViewer,
}

impl Default for Focus {
    fn default() -> (r: Focus)
        ensures
            r == Focus::UrlBar,
    {
        Focus::UrlBar
    }
}

impl Focus {
    /// The pane after this one in cycling order.
    pub open spec fn next_spec(&self) -> Focus {
        match self {
            Focus::Sidebar => Focus::RequestTabs,
            Focus::RequestTabs => Focus::UrlBar,
            Focus::UrlBar => Focus::TabBar,
            Focus::TabBar => Focus::Editor,
            Focus::Editor => Focus::ResponseViewer,
            Focus::ResponseViewer => Focus::Sidebar,
        }
    }

    /// The pane before this one in cycling order.
    pub open spec fn prev_spec(&self) -> Focus {
        match self {
            Focus::Sidebar => Focus::ResponseViewer,
            Focus::RequestTabs => Focus::Sidebar,
            Focus::UrlBar => Focus::RequestTabs,
            Focus::TabBar => Focus::UrlBar,
            Focus::Editor => Focus::TabBar,
            Focus::ResponseViewer => Focus::Editor,
        }
    }

    pub fn next(&self) -> (r: Focus)
        ensures
            r == self.next_spec(),
    {
        match self {
            Focus::Sidebar => Focus::RequestTabs,
            Focus::RequestTabs => Focus::UrlBar,
            Focus::UrlBar => Focus::TabBar,
            Focus::TabBar => Focus::Editor,
            Focus::Editor => Focus::ResponseViewer,
            Focus::ResponseViewer => Focus::Sidebar,
        }
    }

    pub fn prev(&self) -> (r: Focus)
        ensures
            r == self.prev_spec(),
    {
        match self {
            Focus::Sidebar => Focus::ResponseViewer,
            Focus::RequestTabs => Focus::Sidebar,
            Focus::UrlBar => Focus::RequestTabs,
            Focus::TabBar => Focus::UrlBar,
            Focus::Editor => Focus::TabBar,
            Focus::ResponseViewer => Focus::Editor,
        }
    }
}

} // verus!
