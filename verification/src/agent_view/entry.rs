//! The rows of the agent panel.

use vstd::prelude::*;

use crate::detect::{Agent, AgentState};
use crate::ordered_map::MetadataMap;
use crate::remote_agents::presentation::option_text;

verus! {

/// Where an agent of the panel runs.
#[derive(Debug, PartialEq, Eq)]
pub enum AgentPanelTarget {
    Local { ws_idx: usize, tab_idx: usize, pane_idx: usize },
    Remote { source: String, pane_id: String },
}

/// Where an agent of the panel runs, as mathematical values.
pub enum TargetModel {
    Local { ws_idx: int, tab_idx: int, pane_idx: int },
    Remote { source: Seq<char>, pane_id: Seq<char> },
}

impl View for AgentPanelTarget {
    type V = TargetModel;

    open spec fn view(&self) -> TargetModel {
        match self {
            AgentPanelTarget::Local { ws_idx, tab_idx, pane_idx } => TargetModel::Local {
                ws_idx: *ws_idx as int,
                tab_idx: *tab_idx as int,
                pane_idx: *pane_idx as int,
            },
            AgentPanelTarget::Remote { source, pane_id } => TargetModel::Remote {
                source: source@,
                pane_id: pane_id@,
            },
        }
    }
}

/// A row of the agent panel.
#[derive(Debug, PartialEq, Eq)]
pub struct AgentPanelEntry {
    pub target: AgentPanelTarget,
    /// The identifiers that views filter by.
    pub view_workspace_id: String,
    pub view_tab_id: String,
    pub view_pane_id: String,
    /// The source, the workspace, the tab and the pane, by their order.
    pub order: (usize, usize, usize, usize),
    pub primary_label: String,
    pub primary_tab_label: Option<String>,
    pub pane_label: Option<String>,
    pub terminal_title: Option<String>,
    pub terminal_title_stripped: Option<String>,
    pub agent_label: Option<String>,
    pub agent_kind_label: Option<String>,
    pub agent: Option<Agent>,
    pub state: AgentState,
    pub seen: bool,
    pub last_agent_state_change_seq: Option<u64>,
    pub state_labels: MetadataMap,
    pub tokens: MetadataMap,
}

/// A row of the agent panel, as mathematical values.
#[verifier::ext_equal]
pub struct EntryModel {
    pub target: TargetModel,
    pub view_workspace_id: Seq<char>,
    pub view_tab_id: Seq<char>,
    pub view_pane_id: Seq<char>,
    pub order: (usize, usize, usize, usize),
    pub primary_label: Seq<char>,
    pub primary_tab_label: Option<Seq<char>>,
    pub pane_label: Option<Seq<char>>,
    pub terminal_title: Option<Seq<char>>,
    pub terminal_title_stripped: Option<Seq<char>>,
    pub agent_label: Option<Seq<char>>,
    pub agent_kind_label: Option<Seq<char>>,
    pub agent: Option<Agent>,
    pub state: AgentState,
    pub seen: bool,
    pub last_agent_state_change_seq: Option<u64>,
    pub state_labels: Map<Seq<char>, Seq<char>>,
    pub tokens: Map<Seq<char>, Seq<char>>,
}

impl View for AgentPanelEntry {
    type V = EntryModel;

    open spec fn view(&self) -> EntryModel {
        EntryModel {
            target: self.target@,
            view_workspace_id: self.view_workspace_id@,
            view_tab_id: self.view_tab_id@,
            view_pane_id: self.view_pane_id@,
            order: self.order,
            primary_label: self.primary_label@,
            primary_tab_label: option_text(self.primary_tab_label),
            pane_label: option_text(self.pane_label),
            terminal_title: option_text(self.terminal_title),
            terminal_title_stripped: option_text(self.terminal_title_stripped),
            agent_label: option_text(self.agent_label),
            agent_kind_label: option_text(self.agent_kind_label),
            agent: self.agent,
            state: self.state,
            seen: self.seen,
            last_agent_state_change_seq: self.last_agent_state_change_seq,
            state_labels: self.state_labels@,
            tokens: self.tokens@,
        }
    }
}

/// The rows of the panel, as mathematical values.
pub open spec fn entry_models(entries: Seq<AgentPanelEntry>) -> Seq<EntryModel> {
    entries.map_values(|entry: AgentPanelEntry| entry@)
}

impl AgentPanelEntry {
    /// The positions of the workspace, the tab and the pane of a local agent.
    pub fn local_target(&self) -> (target: Option<(usize, usize, usize)>)
        ensures
            target == match self.target {
                AgentPanelTarget::Local { ws_idx, tab_idx, pane_idx } => Some(
                    (ws_idx, tab_idx, pane_idx),
                ),
                AgentPanelTarget::Remote { .. } => None,
            },
    {
        match &self.target {
            AgentPanelTarget::Local { ws_idx, tab_idx, pane_idx } => Some(
                (*ws_idx, *tab_idx, *pane_idx),
            ),
            AgentPanelTarget::Remote { .. } => None,
        }
    }
}

} // verus!
