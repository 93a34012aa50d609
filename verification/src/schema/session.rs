//! What a session reports of itself.

use vstd::prelude::*;

use crate::ordered_map::MetadataMap;
use crate::remote_agents::presentation::option_text;
use crate::schema::AgentStatus;
use crate::text::views;

verus! {

#[derive(Debug, PartialEq, Eq)]
pub struct WorkspaceInfo {
    pub workspace_id: String,
    pub number: usize,
    pub label: String,
    pub focused: bool,
    pub pane_count: usize,
    pub tab_count: usize,
    /// The tab that it shows, empty where there is none.
    pub active_tab_id: String,
    pub agent_status: AgentStatus,
    pub tokens: MetadataMap,
    /// The worktree that it stands for, as the app describes it.
    pub worktree: Option<String>,
}

#[derive(Debug, PartialEq, Eq)]
pub struct TabInfo {
    pub tab_id: String,
    pub workspace_id: String,
    pub number: usize,
    pub label: String,
    /// Whether the label was given by the user.
    pub custom_label: bool,
    pub focused: bool,
    pub pane_count: usize,
    pub agent_status: AgentStatus,
}

#[derive(Debug, PartialEq, Eq)]
pub struct PaneInfo {
    pub pane_id: String,
    pub number: usize,
    pub terminal_id: String,
    pub workspace_id: String,
    pub tab_id: String,
    pub focused: bool,
    pub cwd: Option<String>,
    pub foreground_cwd: Option<String>,
    pub label: Option<String>,
    pub agent: Option<String>,
    pub title: Option<String>,
    pub terminal_title: Option<String>,
    pub terminal_title_stripped: Option<String>,
    pub display_agent: Option<String>,
    pub agent_status: AgentStatus,
    pub state_labels: MetadataMap,
    pub tokens: MetadataMap,
    /// The session of its agent, as the app describes it.
    pub agent_session: Option<String>,
    /// Where it is scrolled to, as the app describes it.
    pub scroll: Option<String>,
    pub revision: u64,
}

/// The panes of a tab, in their order.
#[derive(Debug, PartialEq, Eq)]
pub struct PaneLayoutSnapshot {
    pub workspace_id: String,
    pub tab_id: String,
    pub pane_ids: Vec<String>,
}

#[derive(Debug, PartialEq, Eq)]
pub struct AgentInfo {
    pub terminal_id: String,
    pub name: Option<String>,
    pub agent: Option<String>,
    pub title: Option<String>,
    pub terminal_title: Option<String>,
    pub terminal_title_stripped: Option<String>,
    pub display_agent: Option<String>,
    pub agent_status: AgentStatus,
    pub screen_detection_skipped: bool,
    pub state_labels: MetadataMap,
    pub tokens: MetadataMap,
    /// The session that it continues, as the app describes it.
    pub agent_session: Option<String>,
    pub workspace_id: String,
    pub tab_id: String,
    pub pane_id: String,
    pub focused: bool,
    pub launch_pending: bool,
    pub interactive_ready: bool,
    /// When its state changed last, in the order of all such changes.
    pub state_change_seq: u64,
    pub cwd: Option<String>,
    pub foreground_cwd: Option<String>,
    pub revision: u64,
}

/// An agent of a configured remote source. Its identifiers belong to the remote session and cannot
/// be used as targets for local commands.
#[derive(Debug, PartialEq, Eq)]
pub struct RemoteAgentInfo {
    /// Connection target of the remote agent source this agent came from.
    pub source_target: String,
    /// Remote session name of the source.
    pub source_session: String,
    pub source_label: String,
    /// Whether the snapshot stream of the source is currently connected.
    pub source_online: bool,
    /// Workspace id within the remote session.
    pub workspace_id: String,
    /// Tab id within the remote session.
    pub tab_id: String,
    /// Pane id within the remote session.
    pub pane_id: String,
    pub workspace_label: String,
    pub tab_label: Option<String>,
    pub title: Option<String>,
    pub terminal_title: Option<String>,
    pub terminal_title_stripped: Option<String>,
    pub agent: Option<String>,
    pub display_agent: String,
    pub agent_status: AgentStatus,
    pub state_labels: MetadataMap,
    pub tokens: MetadataMap,
    /// Local observation sequence bumped when the status of the agent changes.
    pub state_change_seq: Option<u64>,
}

/// A session, as it reports itself.
#[derive(Debug, PartialEq, Eq)]
pub struct SessionSnapshot {
    pub version: String,
    pub protocol: u32,
    pub focused_workspace_id: Option<String>,
    pub focused_tab_id: Option<String>,
    pub focused_pane_id: Option<String>,
    pub workspaces: Vec<WorkspaceInfo>,
    pub tabs: Vec<TabInfo>,
    pub panes: Vec<PaneInfo>,
    pub layouts: Vec<PaneLayoutSnapshot>,
    pub agents: Vec<AgentInfo>,
    /// Agents observed on configured remote agent sources.
    pub remote_agents: Vec<RemoteAgentInfo>,
}

/// The answer to a request.
#[derive(Debug, PartialEq, Eq)]
pub enum ResponseResult {
    SessionSnapshot { snapshot: Box<SessionSnapshot> },
}

/// The answer to the request with the given identifier.
#[derive(Debug, PartialEq, Eq)]
pub struct SuccessResponse {
    pub id: String,
    pub result: ResponseResult,
}

/// A reported workspace, as mathematical values.
pub struct WorkspaceModel {
    pub workspace_id: Seq<char>,
    pub number: usize,
    pub label: Seq<char>,
    pub focused: bool,
    pub pane_count: usize,
    pub tab_count: usize,
    pub active_tab_id: Seq<char>,
    pub agent_status: AgentStatus,
    pub tokens: Map<Seq<char>, Seq<char>>,
    pub worktree: Option<Seq<char>>,
}

impl View for WorkspaceInfo {
    type V = WorkspaceModel;

    open spec fn view(&self) -> WorkspaceModel {
        WorkspaceModel {
            workspace_id: self.workspace_id@,
            number: self.number,
            label: self.label@,
            focused: self.focused,
            pane_count: self.pane_count,
            tab_count: self.tab_count,
            active_tab_id: self.active_tab_id@,
            agent_status: self.agent_status,
            tokens: self.tokens@,
            worktree: option_text(self.worktree),
        }
    }
}

/// A reported tab, as mathematical values.
pub struct TabModel {
    pub tab_id: Seq<char>,
    pub workspace_id: Seq<char>,
    pub number: usize,
    pub label: Seq<char>,
    pub custom_label: bool,
    pub focused: bool,
    pub pane_count: usize,
    pub agent_status: AgentStatus,
}

impl View for TabInfo {
    type V = TabModel;

    open spec fn view(&self) -> TabModel {
        TabModel {
            tab_id: self.tab_id@,
            workspace_id: self.workspace_id@,
            number: self.number,
            label: self.label@,
            custom_label: self.custom_label,
            focused: self.focused,
            pane_count: self.pane_count,
            agent_status: self.agent_status,
        }
    }
}

/// A reported pane, as mathematical values.
pub struct PaneModel {
    pub pane_id: Seq<char>,
    pub number: usize,
    pub terminal_id: Seq<char>,
    pub workspace_id: Seq<char>,
    pub tab_id: Seq<char>,
    pub focused: bool,
    pub cwd: Option<Seq<char>>,
    pub foreground_cwd: Option<Seq<char>>,
    pub label: Option<Seq<char>>,
    pub agent: Option<Seq<char>>,
    pub title: Option<Seq<char>>,
    pub terminal_title: Option<Seq<char>>,
    pub terminal_title_stripped: Option<Seq<char>>,
    pub display_agent: Option<Seq<char>>,
    pub agent_status: AgentStatus,
    pub state_labels: Map<Seq<char>, Seq<char>>,
    pub tokens: Map<Seq<char>, Seq<char>>,
    pub agent_session: Option<Seq<char>>,
    pub scroll: Option<Seq<char>>,
    pub revision: u64,
}

impl View for PaneInfo {
    type V = PaneModel;

    open spec fn view(&self) -> PaneModel {
        PaneModel {
            pane_id: self.pane_id@,
            number: self.number,
            terminal_id: self.terminal_id@,
            workspace_id: self.workspace_id@,
            tab_id: self.tab_id@,
            focused: self.focused,
            cwd: option_text(self.cwd),
            foreground_cwd: option_text(self.foreground_cwd),
            label: option_text(self.label),
            agent: option_text(self.agent),
            title: option_text(self.title),
            terminal_title: option_text(self.terminal_title),
            terminal_title_stripped: option_text(self.terminal_title_stripped),
            display_agent: option_text(self.display_agent),
            agent_status: self.agent_status,
            state_labels: self.state_labels@,
            tokens: self.tokens@,
            agent_session: option_text(self.agent_session),
            scroll: option_text(self.scroll),
            revision: self.revision,
        }
    }
}

/// The reported panes of a tab, as mathematical values.
pub struct LayoutModel {
    pub workspace_id: Seq<char>,
    pub tab_id: Seq<char>,
    pub pane_ids: Seq<Seq<char>>,
}

impl View for PaneLayoutSnapshot {
    type V = LayoutModel;

    open spec fn view(&self) -> LayoutModel {
        LayoutModel {
            workspace_id: self.workspace_id@,
            tab_id: self.tab_id@,
            pane_ids: views(self.pane_ids@),
        }
    }
}

/// A reported agent, as mathematical values.
pub struct AgentModel {
    pub terminal_id: Seq<char>,
    pub name: Option<Seq<char>>,
    pub agent: Option<Seq<char>>,
    pub title: Option<Seq<char>>,
    pub terminal_title: Option<Seq<char>>,
    pub terminal_title_stripped: Option<Seq<char>>,
    pub display_agent: Option<Seq<char>>,
    pub agent_status: AgentStatus,
    pub screen_detection_skipped: bool,
    pub state_labels: Map<Seq<char>, Seq<char>>,
    pub tokens: Map<Seq<char>, Seq<char>>,
    pub agent_session: Option<Seq<char>>,
    pub workspace_id: Seq<char>,
    pub tab_id: Seq<char>,
    pub pane_id: Seq<char>,
    pub focused: bool,
    pub launch_pending: bool,
    pub interactive_ready: bool,
    pub state_change_seq: u64,
    pub cwd: Option<Seq<char>>,
    pub foreground_cwd: Option<Seq<char>>,
    pub revision: u64,
}

impl View for AgentInfo {
    type V = AgentModel;

    open spec fn view(&self) -> AgentModel {
        AgentModel {
            terminal_id: self.terminal_id@,
            name: option_text(self.name),
            agent: option_text(self.agent),
            title: option_text(self.title),
            terminal_title: option_text(self.terminal_title),
            terminal_title_stripped: option_text(self.terminal_title_stripped),
            display_agent: option_text(self.display_agent),
            agent_status: self.agent_status,
            screen_detection_skipped: self.screen_detection_skipped,
            state_labels: self.state_labels@,
            tokens: self.tokens@,
            agent_session: option_text(self.agent_session),
            workspace_id: self.workspace_id@,
            tab_id: self.tab_id@,
            pane_id: self.pane_id@,
            focused: self.focused,
            launch_pending: self.launch_pending,
            interactive_ready: self.interactive_ready,
            state_change_seq: self.state_change_seq,
            cwd: option_text(self.cwd),
            foreground_cwd: option_text(self.foreground_cwd),
            revision: self.revision,
        }
    }
}

/// A reported remote agent, as mathematical values.
pub struct RemoteAgentModel {
    pub source_target: Seq<char>,
    pub source_session: Seq<char>,
    pub source_label: Seq<char>,
    pub source_online: bool,
    pub workspace_id: Seq<char>,
    pub tab_id: Seq<char>,
    pub pane_id: Seq<char>,
    pub workspace_label: Seq<char>,
    pub tab_label: Option<Seq<char>>,
    pub title: Option<Seq<char>>,
    pub terminal_title: Option<Seq<char>>,
    pub terminal_title_stripped: Option<Seq<char>>,
    pub agent: Option<Seq<char>>,
    pub display_agent: Seq<char>,
    pub agent_status: AgentStatus,
    pub state_labels: Map<Seq<char>, Seq<char>>,
    pub tokens: Map<Seq<char>, Seq<char>>,
    pub state_change_seq: Option<u64>,
}

impl View for RemoteAgentInfo {
    type V = RemoteAgentModel;

    open spec fn view(&self) -> RemoteAgentModel {
        RemoteAgentModel {
            source_target: self.source_target@,
            source_session: self.source_session@,
            source_label: self.source_label@,
            source_online: self.source_online,
            workspace_id: self.workspace_id@,
            tab_id: self.tab_id@,
            pane_id: self.pane_id@,
            workspace_label: self.workspace_label@,
            tab_label: option_text(self.tab_label),
            title: option_text(self.title),
            terminal_title: option_text(self.terminal_title),
            terminal_title_stripped: option_text(self.terminal_title_stripped),
            agent: option_text(self.agent),
            display_agent: self.display_agent@,
            agent_status: self.agent_status,
            state_labels: self.state_labels@,
            tokens: self.tokens@,
            state_change_seq: self.state_change_seq,
        }
    }
}

/// A reported session, as mathematical values.
pub struct SessionModel {
    pub version: Seq<char>,
    pub protocol: u32,
    pub focused_workspace_id: Option<Seq<char>>,
    pub focused_tab_id: Option<Seq<char>>,
    pub focused_pane_id: Option<Seq<char>>,
    pub workspaces: Seq<WorkspaceModel>,
    pub tabs: Seq<TabModel>,
    pub panes: Seq<PaneModel>,
    pub layouts: Seq<LayoutModel>,
    pub agents: Seq<AgentModel>,
    pub remote_agents: Seq<RemoteAgentModel>,
}

impl View for SessionSnapshot {
    type V = SessionModel;

    open spec fn view(&self) -> SessionModel {
        SessionModel {
            version: self.version@,
            protocol: self.protocol,
            focused_workspace_id: option_text(self.focused_workspace_id),
            focused_tab_id: option_text(self.focused_tab_id),
            focused_pane_id: option_text(self.focused_pane_id),
            workspaces: self.workspaces@.map_values(|info: WorkspaceInfo| info@),
            tabs: self.tabs@.map_values(|info: TabInfo| info@),
            panes: self.panes@.map_values(|info: PaneInfo| info@),
            layouts: self.layouts@.map_values(|info: PaneLayoutSnapshot| info@),
            agents: self.agents@.map_values(|info: AgentInfo| info@),
            remote_agents: self.remote_agents@.map_values(|info: RemoteAgentInfo| info@),
        }
    }
}

} // verus!
