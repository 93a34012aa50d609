//! The state of the app as far as the agents of the panel and the session snapshot depend on it.

use vstd::prelude::*;
use vstd::string::*;

use crate::detect::{Agent, AgentState};
use crate::ordered_map::MetadataMap;
use crate::remote_agents::registry::RemoteAgentRegistry;
use crate::schema::view::AgentViewSetParams;
use crate::schema::AgentStatus;
use crate::text::{decimal, decimal_text};

verus! {

/// What the keyboard acts on.
#[derive(Debug, Clone, Copy, PartialEq, Eq, Structural)]
pub enum Mode {
    Terminal,
    Navigate,
    Settings,
}

/// How the panel is sorted where no view says otherwise.
#[derive(Debug, Clone, Copy, PartialEq, Eq, Structural)]
pub enum AgentPanelSort {
    Spaces,
    Priority,
}

/// An agent that runs in a pane.
#[derive(Debug, PartialEq, Eq)]
pub struct PaneAgent {
    pub agent: Option<Agent>,
    /// The name of its kind: one that was detected, or one that a hook has reported.
    pub kind_label: Option<String>,
    /// The name to show for it.
    pub label: Option<String>,
    pub state: AgentState,
    pub seen: bool,
    pub state_change_seq: Option<u64>,
    pub state_labels: MetadataMap,
    pub tokens: MetadataMap,
    /// The name that it was given.
    pub name: Option<String>,
    /// The session that it continues, as the app describes it.
    pub session: Option<String>,
    /// Whether its state is not read off the screen.
    pub screen_detection_skipped: bool,
    /// Whether it has been started and has not shown up yet.
    pub launch_pending: bool,
    /// Whether it takes input.
    pub interactive_ready: bool,
}

#[derive(Debug, PartialEq, Eq)]
pub struct Pane {
    /// Its public number in the workspace.
    pub number: usize,
    pub terminal_id: String,
    pub label: Option<String>,
    /// The title that was reported for it.
    pub title: Option<String>,
    pub terminal_title: Option<String>,
    pub terminal_title_stripped: Option<String>,
    pub cwd: Option<String>,
    pub foreground_cwd: Option<String>,
    /// Where it is scrolled to, as the app describes it.
    pub scroll: Option<String>,
    pub revision: u64,
    pub agent: Option<PaneAgent>,
}

#[derive(Debug, PartialEq, Eq)]
pub struct Tab {
    /// Its public number in the workspace.
    pub number: usize,
    pub custom_name: Option<String>,
    pub panes: Vec<Pane>,
    /// The position of the pane that has the focus.
    pub focused_pane: usize,
    /// The status of its agents, taken together.
    pub agent_status: AgentStatus,
}

#[derive(Debug, PartialEq, Eq)]
pub struct Workspace {
    pub id: String,
    pub label: String,
    pub tabs: Vec<Tab>,
    /// The position of the tab that is shown.
    pub active_tab: usize,
    /// The status of its agents, taken together.
    pub agent_status: AgentStatus,
    pub tokens: MetadataMap,
    /// The worktree that it stands for, as the app describes it.
    pub worktree: Option<String>,
}

/// The state of the app.
#[derive(Debug)]
pub struct AppState {
    pub workspaces: Vec<Workspace>,
    /// The position of the workspace that is shown.
    pub active: Option<usize>,
    /// The position of the workspace that is selected while navigating.
    pub selected: usize,
    pub mode: Mode,
    pub agent_panel_sort: AgentPanelSort,
    pub agent_view_override: Option<AgentViewSetParams>,
    pub remote_agents: RemoteAgentRegistry,
    pub next_agent_state_change_seq: u64,
}

/// The public identifier of a tab: that of its workspace and its number there.
pub open spec fn tab_id_text(workspace_id: Seq<char>, number: nat) -> Seq<char> {
    workspace_id + ":t"@ + decimal(number)
}

/// The public identifier of a pane: that of its workspace and its number there.
pub open spec fn pane_id_text(workspace_id: Seq<char>, number: nat) -> Seq<char> {
    workspace_id + ":p"@ + decimal(number)
}

pub fn public_tab_id_for_number(workspace_id: &str, number: usize) -> (id: String)
    ensures
        id@ == tab_id_text(workspace_id@, number as nat),
{
    let mut id = workspace_id.to_owned();
    id.append(":t");
    id.append(decimal_text(number as u64).as_str());
    id
}

pub fn public_pane_id_for_number(workspace_id: &str, number: usize) -> (id: String)
    ensures
        id@ == pane_id_text(workspace_id@, number as nat),
{
    let mut id = workspace_id.to_owned();
    id.append(":p");
    id.append(decimal_text(number as u64).as_str());
    id
}

impl Workspace {
    /// The public number of a tab.
    pub fn public_tab_number(&self, tab_idx: usize) -> (number: Option<usize>)
        ensures
            number == (if tab_idx < self.tabs@.len() {
                Some(self.tabs@[tab_idx as int].number)
            } else {
                None
            }),
    {
        if tab_idx < self.tabs.len() {
            Some(self.tabs[tab_idx].number)
        } else {
            None
        }
    }

    /// The public number of the pane that has the focus in the tab that is shown.
    pub fn focused_pane_number(&self) -> (number: Option<usize>)
        ensures
            number == focused_number(*self),
    {
        if self.active_tab >= self.tabs.len() {
            return None;
        }
        let tab = &self.tabs[self.active_tab];
        if tab.focused_pane >= tab.panes.len() {
            return None;
        }
        Some(tab.panes[tab.focused_pane].number)
    }

    /// How many panes there are in all tabs.
    pub fn pane_count(&self) -> (count: usize)
        ensures
            count == pane_total(*self),
    {
        let mut count: usize = 0;
        let mut i: usize = 0;
        while i < self.tabs.len()
            invariant
                i <= self.tabs@.len(),
                count == (if panes_in(self.tabs@, i as nat) <= usize::MAX {
                    panes_in(self.tabs@, i as nat)
                } else {
                    usize::MAX as nat
                }),
            decreases self.tabs.len() - i,
        {
            count = count.saturating_add(self.tabs[i].panes.len());
            i = i + 1;
        }
        count
    }
}

/// The public number of the pane that has the focus in the tab that a workspace shows.
pub open spec fn focused_number(workspace: Workspace) -> Option<usize> {
    if workspace.active_tab >= workspace.tabs@.len() {
        None
    } else {
        let tab = workspace.tabs@[workspace.active_tab as int];
        if tab.focused_pane >= tab.panes@.len() {
            None
        } else {
            Some(tab.panes@[tab.focused_pane as int].number)
        }
    }
}

/// How many panes the first tabs of a workspace have.
pub open spec fn panes_in(tabs: Seq<Tab>, n: nat) -> nat
    decreases n,
{
    if n == 0 {
        0
    } else {
        panes_in(tabs, (n - 1) as nat) + tabs[n - 1].panes@.len()
    }
}

/// How many panes a workspace has, as far as a `usize` counts them.
pub open spec fn pane_total(workspace: Workspace) -> usize {
    let total = panes_in(workspace.tabs@, workspace.tabs@.len());
    if total <= usize::MAX {
        total as usize
    } else {
        usize::MAX
    }
}

/// The position of the workspace that the app presents: while navigating the selected one, if
/// there is one, else the one that is shown.
pub open spec fn presented_workspace(app: AppState) -> Option<usize> {
    if app.mode == Mode::Navigate {
        if app.selected < app.workspaces@.len() {
            Some(app.selected)
        } else {
            None
        }
    } else {
        app.active
    }
}

} // verus!
