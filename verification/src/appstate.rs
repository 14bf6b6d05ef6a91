//! The application's UI-facing state: tabs, popups, sidebar and the
//! snapshot from which a resolver is built at send time.

use vstd::prelude::*;

use crate::builder::pair_views;
use crate::environment::{EnvVariable, VarType};
use crate::focus::Focus;
use crate::mode::Mode;
use crate::resolver::{EnvResolver, VariableLayer};
use crate::workspace::{RequestTab, WorkspaceState};

verus! {

/// Which request pane is selected.
#[derive(Debug, Clone, PartialEq, Eq, Structural)]
pub enum ActiveTab {
    Headers,
    Body,
    Auth,
    Params,
    Scripts,
}

impl Default for ActiveTab {
    fn default() -> (r: ActiveTab)
        ensures
            r == ActiveTab::Headers,
    {
        ActiveTab::Headers
    }
}

impl ActiveTab {
    /// The pane after this one in cycling order.
    pub open spec fn next_spec(&self) -> ActiveTab {
        match self {
            ActiveTab::Headers => ActiveTab::Body,
            ActiveTab::Body => ActiveTab::Auth,
            ActiveTab::Auth => ActiveTab::Params,
            ActiveTab::Params => ActiveTab::Scripts,
            ActiveTab::Scripts => ActiveTab::Headers,
        }
    }

    /// The pane before this one in cycling order.
    pub open spec fn prev_spec(&self) -> ActiveTab {
        match self {
            ActiveTab::Headers => ActiveTab::Scripts,
            ActiveTab::Body => ActiveTab::Headers,
            ActiveTab::Auth => ActiveTab::Body,
            ActiveTab::Params => ActiveTab::Auth,
            ActiveTab::Scripts => ActiveTab::Params,
        }
    }

    pub fn next(&self) -> (r: ActiveTab)
        ensures
            r == self.next_spec(),
    {
        match self {
            ActiveTab::Headers => ActiveTab::Body,
            ActiveTab::Body => ActiveTab::Auth,
            ActiveTab::Auth => ActiveTab::Params,
            ActiveTab::Params => ActiveTab::Scripts,
            ActiveTab::Scripts => ActiveTab::Headers,
        }
    }

    pub fn prev(&self) -> (r: ActiveTab)
        ensures
            r == self.prev_spec(),
    {
        match self {
            ActiveTab::Headers => ActiveTab::Scripts,
            ActiveTab::Body => ActiveTab::Headers,
            ActiveTab::Auth => ActiveTab::Body,
            ActiveTab::Params => ActiveTab::Auth,
            ActiveTab::Scripts => ActiveTab::Params,
        }
    }
}

/// Which response pane is selected.
#[derive(Debug, Clone, PartialEq, Eq, Structural)]
pub enum ResponseTab {
    Body,
    Headers,
    Cookies,
    Timing,
}

impl Default for ResponseTab {
    fn default() -> (r: ResponseTab)
        ensures
            r == ResponseTab::Body,
    {
        ResponseTab::Body
    }
}

/// Per-tab send status: exactly one of idle, loading or error text.
#[derive(Debug, Clone)]
pub enum RequestStatus {
    Idle,
    Loading { spinner_tick: u8 },
    Error(String),
}

impl Default for RequestStatus {
    fn default() -> (r: RequestStatus)
        ensures
            r is Idle,
    {
        RequestStatus::Idle
    }
}

/// Which popup is open, if any.
#[derive(Debug, Clone, PartialEq, Eq, Structural)]
pub enum ActivePopup {
    Closed,
    EnvSwitcher,
    EnvEditor,
    WorkspaceSwitcher,
    CollectionNaming,
    ConfirmDelete,
}

impl Default for ActivePopup {
    fn default() -> (r: ActivePopup)
        ensures
            r == ActivePopup::Closed,
    {
        ActivePopup::Closed
    }
}

/// State of the environment switcher popup.
#[derive(Debug, Clone)]
pub struct EnvSwitcherState {
    pub selected: usize,
    pub search: String,
    pub search_cursor: usize,
    pub naming: bool,
    pub new_name: String,
    pub new_name_cursor: usize,
}

impl Default for EnvSwitcherState {
    fn default() -> (r: EnvSwitcherState)
        ensures
            r.selected == 0,
            r.search@ == Seq::<char>::empty(),
            r.search_cursor == 0,
            !r.naming,
            r.new_name@ == Seq::<char>::empty(),
            r.new_name_cursor == 0,
    {
        EnvSwitcherState {
            selected: 0,
            search: String::new(),
            search_cursor: 0,
            naming: false,
            new_name: String::new(),
            new_name_cursor: 0,
        }
    }
}

/// State of the environment editor popup.
#[derive(Debug, Clone)]
pub struct EnvEditorState {
    pub env_idx: usize,
    pub row: usize,
    pub col: u8,
    pub cursor: usize,
    pub show_secret: bool,
    pub editing: bool,
    pub editing_name: bool,
    pub name_cursor: usize,
}

impl Default for EnvEditorState {
    fn default() -> (r: EnvEditorState)
        ensures
            r.env_idx == 0,
            r.row == 0,
            r.col == 0,
            r.cursor == 0,
            !r.show_secret,
            !r.editing,
            !r.editing_name,
            r.name_cursor == 0,
    {
        EnvEditorState {
            env_idx: 0,
            row: 0,
            col: 0,
            cursor: 0,
            show_secret: false,
            editing: false,
            editing_name: false,
            name_cursor: 0,
        }
    }
}

/// State of the sidebar tree.
#[derive(Debug, Clone)]
pub struct SidebarState {
    pub cursor: usize,
    pub collapsed_ids: Vec<String>,
    pub search_mode: bool,
    pub search_query: String,
    pub scroll_offset: usize,
}

impl Default for SidebarState {
    fn default() -> (r: SidebarState)
        ensures
            r.cursor == 0,
            r.collapsed_ids@ == Seq::<String>::empty(),
            !r.search_mode,
            r.search_query@ == Seq::<char>::empty(),
            r.scroll_offset == 0,
    {
        SidebarState {
            cursor: 0,
            collapsed_ids: Vec::new(),
            search_mode: false,
            search_query: String::new(),
            scroll_offset: 0,
        }
    }
}

/// State of the workspace switcher popup.
#[derive(Debug, Clone)]
pub struct WorkspaceSwitcherState {
    pub selected: usize,
    pub search: String,
    pub search_cursor: usize,
    pub naming: bool,
    pub new_name: String,
    pub new_name_cursor: usize,
}

impl Default for WorkspaceSwitcherState {
    fn default() -> (r: WorkspaceSwitcherState)
        ensures
            r.selected == 0,
            r.search@ == Seq::<char>::empty(),
            r.search_cursor == 0,
            !r.naming,
            r.new_name@ == Seq::<char>::empty(),
            r.new_name_cursor == 0,
    {
        WorkspaceSwitcherState {
            selected: 0,
            search: String::new(),
            search_cursor: 0,
            naming: false,
            new_name: String::new(),
            new_name_cursor: 0,
        }
    }
}

/// What the naming popup is naming.
#[derive(Debug, Clone)]
pub enum NamingTarget {
    NewCollection,
    NewFolder { collection_id: String },
    NewRequest { collection_id: String, folder_id: Option<String> },
    Rename { id: String, old_name: String },
}

impl Default for NamingTarget {
    fn default() -> (r: NamingTarget)
        ensures
            r is NewCollection,
    {
        NamingTarget::NewCollection
    }
}

/// State of the naming popup.
#[derive(Debug, Clone)]
pub struct NamingState {
    pub target: NamingTarget,
    pub input: String,
    pub cursor: usize,
    pub method: String,
}

impl Default for NamingState {
    fn default() -> (r: NamingState)
        ensures
            r.target is NewCollection,
            r.input@ == Seq::<char>::empty(),
            r.cursor == 0,
            r.method@ == "GET"@,
    {
        NamingState {
            target: NamingTarget::NewCollection,
            input: String::new(),
            cursor: 0,
            method: "GET".to_owned(),
        }
    }
}

/// State of the delete-confirmation popup.
#[derive(Debug, Clone)]
pub struct ConfirmDeleteState {
    pub message: String,
    pub target_id: String,
}

impl Default for ConfirmDeleteState {
    fn default() -> (r: ConfirmDeleteState)
        ensures
            r.message@ == Seq::<char>::empty(),
            r.target_id@ == Seq::<char>::empty(),
    {
        ConfirmDeleteState { message: String::new(), target_id: String::new() }
    }
}

/// The whole UI-owned application state.
#[derive(Debug, Clone)]
pub struct AppState {
    pub mode: Mode,
    pub focus: Focus,
    pub sidebar_visible: bool,
    pub should_quit: bool,
    pub dirty: bool,
    pub active_popup: ActivePopup,
    pub env_editor: EnvEditorState,
    pub env_switcher: EnvSwitcherState,
    pub workspace: WorkspaceState,
    pub all_workspaces: Vec<String>,
    pub sidebar: SidebarState,
    pub naming: NamingState,
    pub confirm_delete: ConfirmDeleteState,
    pub ws_switcher: WorkspaceSwitcherState,
}

impl Default for AppState {
    fn default() -> (r: AppState)
        ensures
            r.mode == Mode::Normal,
            r.focus == Focus::UrlBar,
            !r.sidebar_visible,
            !r.should_quit,
            !r.dirty,
            r.active_popup == ActivePopup::Closed,
            r.workspace.environments@ == Seq::<crate::environment::Environment>::empty(),
            r.workspace.active_environment_idx is None,
            r.workspace.open_tabs@ == Seq::<RequestTab>::empty(),
            r.workspace.active_tab_idx == 0,
            r.all_workspaces@ == Seq::<String>::empty(),
    {
        AppState {
            mode: Mode::Normal,
            focus: Focus::UrlBar,
            sidebar_visible: false,
            should_quit: false,
            dirty: false,
            active_popup: ActivePopup::Closed,
            env_editor: EnvEditorState::default(),
            env_switcher: EnvSwitcherState::default(),
            workspace: WorkspaceState::default(),
            all_workspaces: Vec::new(),
            sidebar: SidebarState::default(),
            naming: NamingState::default(),
            confirm_delete: ConfirmDeleteState::default(),
            ws_switcher: WorkspaceSwitcherState::default(),
        }
    }
}

impl AppState {
    /// The currently active request tab, if the index is in range.
    pub fn active_tab(&self) -> (r: Option<&RequestTab>)
        ensures
            match r {
                Some(t) => self.workspace.active_tab_idx < self.workspace.open_tabs@.len() && *t
                    == self.workspace.open_tabs@[self.workspace.active_tab_idx as int],
                None => self.workspace.active_tab_idx >= self.workspace.open_tabs@.len(),
            },
    {
        let idx = self.workspace.active_tab_idx;
        if idx < self.workspace.open_tabs.len() {
            Some(&self.workspace.open_tabs[idx])
        } else {
            None
        }
    }
}

/// The variable entries that make it into the send-time layer: the enabled
/// ones, as key/value pairs, in order.
pub open spec fn enabled_entries_spec(vars: Seq<EnvVariable>) -> Seq<(Seq<char>, Seq<char>)>
    decreases vars.len(),
{
    if vars.len() == 0 {
        Seq::empty()
    } else {
        let rest = enabled_entries_spec(vars.drop_first());
        if vars[0].enabled {
            seq![(vars[0].key@, vars[0].value@)] + rest
        } else {
            rest
        }
    }
}

/// The names that are masked: keys of enabled secret-typed variables.
pub open spec fn secret_keys_spec(vars: Seq<EnvVariable>) -> Seq<Seq<char>>
    decreases vars.len(),
{
    if vars.len() == 0 {
        Seq::empty()
    } else {
        let rest = secret_keys_spec(vars.drop_first());
        if vars[0].enabled && vars[0].var_type == VarType::Secret {
            seq![vars[0].key@] + rest
        } else {
            rest
        }
    }
}

/// The name views of a list of keys.
pub open spec fn key_views(keys: Seq<String>) -> Seq<Seq<char>> {
    keys.map_values(|s: String| s@)
}

proof fn lemma_entries_skip(vars: Seq<EnvVariable>, k: int)
    requires
        0 <= k < vars.len(),
    ensures
        enabled_entries_spec(vars.skip(k)) == if vars[k].enabled {
            seq![(vars[k].key@, vars[k].value@)] + enabled_entries_spec(vars.skip(k + 1))
        } else {
            enabled_entries_spec(vars.skip(k + 1))
        },
        secret_keys_spec(vars.skip(k)) == if vars[k].enabled && vars[k].var_type
            == VarType::Secret {
            seq![vars[k].key@] + secret_keys_spec(vars.skip(k + 1))
        } else {
            secret_keys_spec(vars.skip(k + 1))
        },
{
    let sub = vars.skip(k);
    assert(sub[0] == vars[k]);
    assert(sub.drop_first() =~= vars.skip(k + 1));
}

/// Build the resolver for a send from the current state and a snapshot of
/// the process environment: layer 0 holds the enabled variables of the
/// active environment, the secret set their secret-typed keys; the process
/// environment is the lowest-priority layer.
pub fn resolver_from_state(state: &AppState, os_vars: Vec<(String, String)>) -> (r: EnvResolver)
    ensures
        ({
            let ws = state.workspace;
            match ws.active_environment_idx {
                Some(idx) => if idx < ws.environments@.len() {
                    let vars = ws.environments@[idx as int].variables@;
                    &&& r.layers@.len() == 2
                    &&& pair_views(r.layers@[0].entries@) == enabled_entries_spec(vars)
                    &&& pair_views(r.layers@[1].entries@) == pair_views(os_vars@)
                    &&& key_views(r.secret_keys@) == secret_keys_spec(vars)
                } else {
                    &&& r.layers@.len() == 1
                    &&& pair_views(r.layers@[0].entries@) == pair_views(os_vars@)
                    &&& r.secret_keys@.len() == 0
                },
                None => {
                    &&& r.layers@.len() == 1
                    &&& pair_views(r.layers@[0].entries@) == pair_views(os_vars@)
                    &&& r.secret_keys@.len() == 0
                },
            }
        }),
{
    let mut layers: Vec<VariableLayer> = Vec::new();
    let mut secret_keys: Vec<String> = Vec::new();
    let has_active = match state.workspace.active_environment_idx {
        Some(idx) => idx < state.workspace.environments.len(),
        None => false,
    };
    if has_active {
        let idx = match state.workspace.active_environment_idx {
            Some(idx) => idx,
            None => 0,
        };
        let env = &state.workspace.environments[idx];
        let ghost vars = env.variables@;
        let n = env.variables.len();
        let mut entries: Vec<(String, String)> = Vec::new();
        let mut k: usize = 0;
        proof {
            assert(vars.skip(0) =~= vars);
            assert(pair_views(entries@) =~= Seq::<(Seq<char>, Seq<char>)>::empty());
            assert(key_views(secret_keys@) =~= Seq::<Seq<char>>::empty());
        }
        while k < n
            invariant
                n == vars.len(),
                env.variables@ == vars,
                k <= n,
                pair_views(entries@) + enabled_entries_spec(vars.skip(k as int))
                    == enabled_entries_spec(vars),
                key_views(secret_keys@) + secret_keys_spec(vars.skip(k as int))
                    == secret_keys_spec(vars),
            decreases n - k,
        {
            proof {
                lemma_entries_skip(vars, k as int);
            }
            let var = &env.variables[k];
            if var.enabled {
                let ghost before_e = entries@;
                entries.push((var.key.clone(), var.value.clone()));
                proof {
                    assert(pair_views(entries@) =~= pair_views(before_e) + seq![
                        (vars[k as int].key@, vars[k as int].value@),
                    ]);
                }
                if var.var_type == VarType::Secret {
                    let ghost before_s = secret_keys@;
                    secret_keys.push(var.key.clone());
                    proof {
                        assert(key_views(secret_keys@) =~= key_views(before_s) + seq![
                            vars[k as int].key@,
                        ]);
                    }
                }
            }
            k = k + 1;
        }
        proof {
            assert(vars.skip(n as int) =~= Seq::<EnvVariable>::empty());
        }
        layers.push(VariableLayer { entries });
    }
    layers.push(VariableLayer { entries: os_vars });
    EnvResolver::new(layers, secret_keys)
}

} // verus!
