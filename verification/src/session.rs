//! The snapshot that a session reports of itself.

use vstd::prelude::*;
use vstd::string::*;

use crate::flatten::flattened;
use crate::ordered_map::OrderedMap;
use crate::protocol::{BUILD_VERSION, PROTOCOL_VERSION};
use crate::remote_agents::host::{
    host_key, key_parts_read_back, key_session, key_target, RemoteHostKey, KEY_SEPARATOR,
};
use crate::remote_agents::presentation::option_text;
use crate::remote_agents::registry::{is_panel, row_models, PanelModel, RemotePanelAgent};
use crate::schema::session::{
    AgentInfo, AgentModel, LayoutModel, PaneInfo, PaneLayoutSnapshot, PaneModel, RemoteAgentInfo,
    RemoteAgentModel, ResponseResult, SessionSnapshot, SuccessResponse, TabInfo, TabModel,
    WorkspaceInfo, WorkspaceModel,
};
use crate::schema::{agent_status_for_presentation, status_for_state, AgentStatus};
use crate::state::{
    focused_number, pane_id_text, public_pane_id_for_number, public_tab_id_for_number, tab_id_text,
    pane_total, AppState, Pane, PaneAgent, Tab, Workspace,
};
use crate::text::{decimal, decimal_text, views};

verus! {

/// The app, as far as it answers requests for its session.
#[derive(Debug)]
pub struct App {
    pub state: AppState,
}

/// Whether a workspace is the one that is shown.
pub open spec fn is_shown(active: Option<usize>, ws_idx: int) -> bool {
    active matches Some(idx) && idx == ws_idx
}

/// The status of the agent of a pane, unknown where it has none.
pub open spec fn pane_status(pane: Pane) -> AgentStatus {
    match pane.agent {
        Some(agent) => status_for_state(agent.state, agent.seen),
        None => AgentStatus::Unknown,
    }
}

/// What is reported of a workspace. Workspaces are numbered by their positions, from 1 on.
pub open spec fn workspace_model(
    workspace: Workspace,
    ws_idx: int,
    shown: bool,
) -> WorkspaceModel {
    WorkspaceModel {
        workspace_id: workspace.id@,
        number: (ws_idx + 1) as usize,
        label: workspace.label@,
        focused: shown,
        pane_count: pane_total(workspace),
        tab_count: workspace.tabs@.len() as usize,
        active_tab_id: if workspace.active_tab < workspace.tabs@.len() {
            tab_id_text(workspace.id@, workspace.tabs@[workspace.active_tab as int].number as nat)
        } else {
            Seq::empty()
        },
        agent_status: workspace.agent_status,
        tokens: workspace.tokens@,
        worktree: option_text(workspace.worktree),
    }
}

/// What is reported of a tab. One without a name of its own is labelled by its number.
pub open spec fn tab_model(workspace: Workspace, tab_idx: int, shown: bool) -> TabModel {
    let tab = workspace.tabs@[tab_idx];
    TabModel {
        tab_id: tab_id_text(workspace.id@, tab.number as nat),
        workspace_id: workspace.id@,
        number: tab.number,
        label: match tab.custom_name {
            Some(name) => name@,
            None => decimal(tab.number as nat),
        },
        custom_label: tab.custom_name is Some,
        focused: shown && tab_idx == workspace.active_tab,
        pane_count: tab.panes@.len() as usize,
        agent_status: tab.agent_status,
    }
}

pub open spec fn layout_model(workspace: Workspace, tab: Tab) -> LayoutModel {
    LayoutModel {
        workspace_id: workspace.id@,
        tab_id: tab_id_text(workspace.id@, tab.number as nat),
        pane_ids: tab.panes@.map_values(
            |pane: Pane| pane_id_text(workspace.id@, pane.number as nat),
        ),
    }
}

/// Whether a pane has the focus: in its tab, which is the one shown, in the workspace shown.
pub open spec fn has_focus(
    workspace: Workspace,
    tab_idx: int,
    pane_idx: int,
    shown: bool,
) -> bool {
    &&& shown
    &&& tab_idx == workspace.active_tab
    &&& pane_idx == workspace.tabs@[tab_idx].focused_pane
}

/// What is reported of a pane, with what is known of its agent.
pub open spec fn pane_model(
    workspace: Workspace,
    tab_idx: int,
    pane_idx: int,
    shown: bool,
) -> PaneModel {
    let tab = workspace.tabs@[tab_idx];
    let pane = tab.panes@[pane_idx];
    PaneModel {
        pane_id: pane_id_text(workspace.id@, pane.number as nat),
        number: pane.number,
        terminal_id: pane.terminal_id@,
        workspace_id: workspace.id@,
        tab_id: tab_id_text(workspace.id@, tab.number as nat),
        focused: has_focus(workspace, tab_idx, pane_idx, shown),
        cwd: option_text(pane.cwd),
        foreground_cwd: option_text(pane.foreground_cwd),
        label: option_text(pane.label),
        agent: match pane.agent {
            Some(agent) => option_text(agent.kind_label),
            None => None,
        },
        title: option_text(pane.title),
        terminal_title: option_text(pane.terminal_title),
        terminal_title_stripped: option_text(pane.terminal_title_stripped),
        display_agent: match pane.agent {
            Some(agent) => option_text(agent.label),
            None => None,
        },
        agent_status: pane_status(pane),
        state_labels: match pane.agent {
            Some(agent) => agent.state_labels@,
            None => Map::empty(),
        },
        tokens: match pane.agent {
            Some(agent) => agent.tokens@,
            None => Map::empty(),
        },
        agent_session: match pane.agent {
            Some(agent) => option_text(agent.session),
            None => None,
        },
        scroll: option_text(pane.scroll),
        revision: pane.revision,
    }
}

/// What is reported of the agent of a pane.
pub open spec fn agent_model(
    workspace: Workspace,
    tab_idx: int,
    pane_idx: int,
    agent: PaneAgent,
    shown: bool,
) -> AgentModel {
    let tab = workspace.tabs@[tab_idx];
    let pane = tab.panes@[pane_idx];
    AgentModel {
        terminal_id: pane.terminal_id@,
        name: option_text(agent.name),
        agent: option_text(agent.kind_label),
        title: option_text(pane.title),
        terminal_title: option_text(pane.terminal_title),
        terminal_title_stripped: option_text(pane.terminal_title_stripped),
        display_agent: option_text(agent.label),
        agent_status: status_for_state(agent.state, agent.seen),
        screen_detection_skipped: agent.screen_detection_skipped,
        state_labels: agent.state_labels@,
        tokens: agent.tokens@,
        agent_session: option_text(agent.session),
        workspace_id: workspace.id@,
        tab_id: tab_id_text(workspace.id@, tab.number as nat),
        pane_id: pane_id_text(workspace.id@, pane.number as nat),
        focused: has_focus(workspace, tab_idx, pane_idx, shown),
        launch_pending: agent.launch_pending,
        interactive_ready: agent.interactive_ready,
        state_change_seq: match agent.state_change_seq {
            Some(seq) => seq,
            None => 0,
        },
        cwd: option_text(pane.cwd),
        foreground_cwd: option_text(pane.foreground_cwd),
        revision: pane.revision,
    }
}

pub open spec fn workspace_models(
    workspaces: Seq<Workspace>,
    active: Option<usize>,
) -> Seq<WorkspaceModel> {
    Seq::new(
        workspaces.len(),
        |i: int| workspace_model(workspaces[i], i, is_shown(active, i)),
    )
}

/// The tabs of a workspace.
pub open spec fn tab_models_of(workspace: Workspace, shown: bool) -> Seq<TabModel> {
    Seq::new(workspace.tabs@.len(), |i: int| tab_model(workspace, i, shown))
}

/// The tabs of all workspaces.
pub open spec fn tab_models(workspaces: Seq<Workspace>, active: Option<usize>) -> Seq<TabModel> {
    flattened(workspaces.len(), |i: int| tab_models_of(workspaces[i], is_shown(active, i)))
}

/// The layouts of the tabs of a workspace.
pub open spec fn layout_models_of(workspace: Workspace) -> Seq<LayoutModel> {
    workspace.tabs@.map_values(|tab: Tab| layout_model(workspace, tab))
}

/// The layouts of all tabs.
pub open spec fn layout_models(workspaces: Seq<Workspace>) -> Seq<LayoutModel> {
    flattened(workspaces.len(), |i: int| layout_models_of(workspaces[i]))
}

/// The panes of a tab.
pub open spec fn pane_models_of(
    workspace: Workspace,
    tab_idx: int,
    shown: bool,
) -> Seq<PaneModel> {
    Seq::new(
        workspace.tabs@[tab_idx].panes@.len(),
        |i: int| pane_model(workspace, tab_idx, i, shown),
    )
}

/// The panes of a workspace.
pub open spec fn workspace_pane_models(workspace: Workspace, shown: bool) -> Seq<PaneModel> {
    flattened(workspace.tabs@.len(), |i: int| pane_models_of(workspace, i, shown))
}

/// The panes of all workspaces.
pub open spec fn pane_models(workspaces: Seq<Workspace>, active: Option<usize>) -> Seq<PaneModel> {
    flattened(workspaces.len(), |i: int| workspace_pane_models(workspaces[i], is_shown(active, i)))
}

/// The agent of a pane, where it has one.
pub open spec fn pane_agent_models(
    workspace: Workspace,
    tab_idx: int,
    pane_idx: int,
    shown: bool,
) -> Seq<AgentModel> {
    match workspace.tabs@[tab_idx].panes@[pane_idx].agent {
        Some(agent) => seq![agent_model(workspace, tab_idx, pane_idx, agent, shown)],
        None => Seq::empty(),
    }
}

/// The agents of a tab.
pub open spec fn agent_models_of(
    workspace: Workspace,
    tab_idx: int,
    shown: bool,
) -> Seq<AgentModel> {
    flattened(
        workspace.tabs@[tab_idx].panes@.len(),
        |i: int| pane_agent_models(workspace, tab_idx, i, shown),
    )
}

/// The agents of a workspace.
pub open spec fn workspace_agent_models(workspace: Workspace, shown: bool) -> Seq<AgentModel> {
    flattened(workspace.tabs@.len(), |i: int| agent_models_of(workspace, i, shown))
}

/// The agents of all workspaces.
pub open spec fn agent_models(
    workspaces: Seq<Workspace>,
    active: Option<usize>,
) -> Seq<AgentModel> {
    flattened(workspaces.len(), |i: int| workspace_agent_models(workspaces[i], is_shown(active, i)))
}

/// What is reported of a remote agent: where it was seen, and how it is presented.
pub open spec fn remote_agent_model(row: PanelModel) -> RemoteAgentModel {
    let shown = row.presentation;
    RemoteAgentModel {
        source_target: key_target(row.host_key),
        source_session: key_session(row.host_key),
        source_label: row.host_label,
        source_online: row.online,
        workspace_id: shown.workspace_id,
        tab_id: shown.tab_id,
        pane_id: shown.pane_id,
        workspace_label: shown.workspace_label,
        tab_label: shown.tab_label,
        title: shown.pane_label,
        terminal_title: shown.terminal_title,
        terminal_title_stripped: shown.terminal_title_stripped,
        agent: shown.agent_kind_label,
        display_agent: shown.agent_label,
        agent_status: status_for_state(shown.state, shown.seen),
        state_labels: shown.state_labels,
        tokens: shown.tokens,
        state_change_seq: row.state_change_seq,
    }
}

pub open spec fn remote_agent_models(rows: Seq<PanelModel>) -> Seq<RemoteAgentModel> {
    rows.map_values(|row: PanelModel| remote_agent_model(row))
}

pub open spec fn remote_info_models(infos: Seq<RemoteAgentInfo>) -> Seq<RemoteAgentModel> {
    infos.map_values(|info: RemoteAgentInfo| info@)
}

/// The workspace that is shown.
pub open spec fn shown_workspace(state: AppState) -> Option<Workspace> {
    match state.active {
        Some(idx) => if idx < state.workspaces@.len() {
            Some(state.workspaces@[idx as int])
        } else {
            None
        },
        None => None,
    }
}

/// The workspace that has the focus: wherever a position is shown, a workspace is named. A position
/// behind the last workspace, which has no identifier, is named by the position itself.
pub open spec fn focused_workspace(state: AppState) -> Option<Seq<char>> {
    match state.active {
        Some(idx) => Some(
            if idx < state.workspaces@.len() {
                state.workspaces@[idx as int].id@
            } else {
                decimal(idx as nat)
            },
        ),
        None => None,
    }
}

pub open spec fn focused_tab(state: AppState) -> Option<Seq<char>> {
    match shown_workspace(state) {
        Some(workspace) => if workspace.active_tab < workspace.tabs@.len() {
            Some(
                tab_id_text(
                    workspace.id@,
                    workspace.tabs@[workspace.active_tab as int].number as nat,
                ),
            )
        } else {
            None
        },
        None => None,
    }
}

pub open spec fn focused_pane(state: AppState) -> Option<Seq<char>> {
    match shown_workspace(state) {
        Some(workspace) => match focused_number(workspace) {
            Some(number) => Some(pane_id_text(workspace.id@, number as nat)),
            None => None,
        },
        None => None,
    }
}

/// A snapshot reports a state.
pub open spec fn reports(snapshot: SessionSnapshot, state: AppState) -> bool {
    let model = snapshot@;
    &&& model.version == BUILD_VERSION@
    &&& model.protocol == PROTOCOL_VERSION
    &&& model.focused_workspace_id == focused_workspace(state)
    &&& model.focused_tab_id == focused_tab(state)
    &&& model.focused_pane_id == focused_pane(state)
    &&& model.workspaces == workspace_models(state.workspaces@, state.active)
    &&& model.tabs == tab_models(state.workspaces@, state.active)
    &&& model.panes == pane_models(state.workspaces@, state.active)
    &&& model.layouts == layout_models(state.workspaces@)
    &&& model.agents == agent_models(state.workspaces@, state.active)
    &&& exists|rows: Seq<PanelModel>| #[trigger]
        is_panel(rows, state.remote_agents@) && model.remote_agents == remote_agent_models(rows)
}

fn workspace_info(workspace: &Workspace, ws_idx: usize, shown: bool) -> (info: WorkspaceInfo)
    requires
        ws_idx < usize::MAX,
    ensures
        info@ == workspace_model(*workspace, ws_idx as int, shown),
{
    let active_tab_id = match workspace.public_tab_number(workspace.active_tab) {
        Some(number) => public_tab_id_for_number(workspace.id.as_str(), number),
        None => String::new(),
    };
    WorkspaceInfo {
        workspace_id: workspace.id.clone(),
        number: ws_idx + 1,
        label: workspace.label.clone(),
        focused: shown,
        pane_count: workspace.pane_count(),
        tab_count: workspace.tabs.len(),
        active_tab_id,
        agent_status: workspace.agent_status,
        tokens: workspace.tokens.clone(),
        worktree: workspace.worktree.clone(),
    }
}

fn tab_info(workspace: &Workspace, tab_idx: usize, shown: bool) -> (info: TabInfo)
    requires
        tab_idx < workspace.tabs@.len(),
    ensures
        info@ == tab_model(*workspace, tab_idx as int, shown),
{
    let tab = &workspace.tabs[tab_idx];
    let label = match &tab.custom_name {
        Some(name) => name.clone(),
        None => decimal_text(tab.number as u64),
    };
    TabInfo {
        tab_id: public_tab_id_for_number(workspace.id.as_str(), tab.number),
        workspace_id: workspace.id.clone(),
        number: tab.number,
        label,
        custom_label: tab.custom_name.is_some(),
        focused: shown && tab_idx == workspace.active_tab,
        pane_count: tab.panes.len(),
        agent_status: tab.agent_status,
    }
}

fn pane_layout_snapshot(workspace: &Workspace, tab: &Tab) -> (layout: PaneLayoutSnapshot)
    ensures
        layout@ == layout_model(*workspace, *tab),
{
    let ghost expected = layout_model(*workspace, *tab).pane_ids;
    let mut pane_ids: Vec<String> = Vec::new();
    let mut i: usize = 0;
    while i < tab.panes.len()
        invariant
            i <= tab.panes@.len(),
            expected == layout_model(*workspace, *tab).pane_ids,
            views(pane_ids@) == expected.take(i as int),
        decreases tab.panes.len() - i,
    {
        let ghost now = pane_ids@;
        let id = public_pane_id_for_number(workspace.id.as_str(), tab.panes[i].number);
        pane_ids.push(id);
        proof {
            assert(views(pane_ids@) =~= views(now).push(id@));
            assert(expected[i as int] == id@);
            assert(expected.take(i + 1) =~= expected.take(i as int).push(id@));
        }
        i = i + 1;
    }
    proof {
        assert(expected.take(i as int) =~= expected);
    }
    PaneLayoutSnapshot {
        workspace_id: workspace.id.clone(),
        tab_id: public_tab_id_for_number(workspace.id.as_str(), tab.number),
        pane_ids,
    }
}

fn pane_info(workspace: &Workspace, tab_idx: usize, pane_idx: usize, shown: bool) -> (info:
    PaneInfo)
    requires
        tab_idx < workspace.tabs@.len(),
        pane_idx < workspace.tabs@[tab_idx as int].panes@.len(),
    ensures
        info@ == pane_model(*workspace, tab_idx as int, pane_idx as int, shown),
{
    let tab = &workspace.tabs[tab_idx];
    let pane = &tab.panes[pane_idx];
    let mut info = PaneInfo {
        pane_id: public_pane_id_for_number(workspace.id.as_str(), pane.number),
        number: pane.number,
        terminal_id: pane.terminal_id.clone(),
        workspace_id: workspace.id.clone(),
        tab_id: public_tab_id_for_number(workspace.id.as_str(), tab.number),
        focused: shown && tab_idx == workspace.active_tab && pane_idx == tab.focused_pane,
        cwd: pane.cwd.clone(),
        foreground_cwd: pane.foreground_cwd.clone(),
        label: pane.label.clone(),
        agent: None,
        title: pane.title.clone(),
        terminal_title: pane.terminal_title.clone(),
        terminal_title_stripped: pane.terminal_title_stripped.clone(),
        display_agent: None,
        agent_status: AgentStatus::Unknown,
        state_labels: OrderedMap::new(),
        tokens: OrderedMap::new(),
        agent_session: None,
        scroll: pane.scroll.clone(),
        revision: pane.revision,
    };
    if let Some(agent) = &pane.agent {
        info.agent = agent.kind_label.clone();
        info.display_agent = agent.label.clone();
        info.agent_status = agent_status_for_presentation(agent.state, agent.seen);
        info.state_labels = agent.state_labels.clone();
        info.tokens = agent.tokens.clone();
        info.agent_session = agent.session.clone();
    }
    info
}

fn agent_info(
    workspace: &Workspace,
    tab_idx: usize,
    pane_idx: usize,
    agent: &PaneAgent,
    shown: bool,
) -> (info: AgentInfo)
    requires
        tab_idx < workspace.tabs@.len(),
        pane_idx < workspace.tabs@[tab_idx as int].panes@.len(),
    ensures
        info@ == agent_model(*workspace, tab_idx as int, pane_idx as int, *agent, shown),
{
    let tab = &workspace.tabs[tab_idx];
    let pane = &tab.panes[pane_idx];
    AgentInfo {
        terminal_id: pane.terminal_id.clone(),
        name: agent.name.clone(),
        agent: agent.kind_label.clone(),
        title: pane.title.clone(),
        terminal_title: pane.terminal_title.clone(),
        terminal_title_stripped: pane.terminal_title_stripped.clone(),
        display_agent: agent.label.clone(),
        agent_status: agent_status_for_presentation(agent.state, agent.seen),
        screen_detection_skipped: agent.screen_detection_skipped,
        state_labels: agent.state_labels.clone(),
        tokens: agent.tokens.clone(),
        agent_session: agent.session.clone(),
        workspace_id: workspace.id.clone(),
        tab_id: public_tab_id_for_number(workspace.id.as_str(), tab.number),
        pane_id: public_pane_id_for_number(workspace.id.as_str(), pane.number),
        focused: shown && tab_idx == workspace.active_tab && pane_idx == tab.focused_pane,
        launch_pending: agent.launch_pending,
        interactive_ready: agent.interactive_ready,
        state_change_seq: match agent.state_change_seq {
            Some(seq) => seq,
            None => 0,
        },
        cwd: pane.cwd.clone(),
        foreground_cwd: pane.foreground_cwd.clone(),
        revision: pane.revision,
    }
}

/// What was collected, as mathematical values.
pub open spec fn workspace_views(infos: Seq<WorkspaceInfo>) -> Seq<WorkspaceModel> {
    infos.map_values(|info: WorkspaceInfo| info@)
}

pub open spec fn tab_views(infos: Seq<TabInfo>) -> Seq<TabModel> {
    infos.map_values(|info: TabInfo| info@)
}

pub open spec fn layout_views(infos: Seq<PaneLayoutSnapshot>) -> Seq<LayoutModel> {
    infos.map_values(|info: PaneLayoutSnapshot| info@)
}

pub open spec fn pane_views(infos: Seq<PaneInfo>) -> Seq<PaneModel> {
    infos.map_values(|info: PaneInfo| info@)
}

pub open spec fn agent_views(infos: Seq<AgentInfo>) -> Seq<AgentModel> {
    infos.map_values(|info: AgentInfo| info@)
}

/// Adds the tabs of a workspace and their layouts.
fn push_tabs(
    workspace: &Workspace,
    shown: bool,
    tabs: &mut Vec<TabInfo>,
    layouts: &mut Vec<PaneLayoutSnapshot>,
)
    ensures
        tab_views(final(tabs)@) == tab_views(old(tabs)@) + tab_models_of(*workspace, shown),
        layout_views(final(layouts)@) == layout_views(old(layouts)@) + layout_models_of(
            *workspace,
        ),
{
    let ghost tabs_before = tab_views(tabs@);
    let ghost layouts_before = layout_views(layouts@);
    let ghost all_tabs = tab_models_of(*workspace, shown);
    let ghost all_layouts = layout_models_of(*workspace);
    let mut i: usize = 0;
    proof {
        assert(tabs_before =~= tabs_before + all_tabs.take(0));
        assert(layouts_before =~= layouts_before + all_layouts.take(0));
    }
    while i < workspace.tabs.len()
        invariant
            i <= workspace.tabs@.len(),
            all_tabs == tab_models_of(*workspace, shown),
            all_layouts == layout_models_of(*workspace),
            tab_views(tabs@) == tabs_before + all_tabs.take(i as int),
            layout_views(layouts@) == layouts_before + all_layouts.take(i as int),
        decreases workspace.tabs.len() - i,
    {
        let ghost tabs_now = tabs@;
        let ghost layouts_now = layouts@;
        let tab = tab_info(workspace, i, shown);
        let layout = pane_layout_snapshot(workspace, &workspace.tabs[i]);
        tabs.push(tab);
        layouts.push(layout);
        proof {
            assert(tab_views(tabs@) =~= tab_views(tabs_now).push(tab@));
            assert(layout_views(layouts@) =~= layout_views(layouts_now).push(layout@));
            assert(all_tabs.take(i + 1) =~= all_tabs.take(i as int).push(tab@));
            assert(all_layouts.take(i + 1) =~= all_layouts.take(i as int).push(layout@));
            assert(tab_views(tabs@) =~= tabs_before + all_tabs.take(i + 1));
            assert(layout_views(layouts@) =~= layouts_before + all_layouts.take(i + 1));
        }
        i = i + 1;
    }
    proof {
        assert(all_tabs.take(i as int) =~= all_tabs);
        assert(all_layouts.take(i as int) =~= all_layouts);
    }
}

/// Adds the panes of a tab and their agents.
fn push_panes(
    workspace: &Workspace,
    tab_idx: usize,
    shown: bool,
    panes: &mut Vec<PaneInfo>,
    agents: &mut Vec<AgentInfo>,
)
    requires
        tab_idx < workspace.tabs@.len(),
    ensures
        pane_views(final(panes)@) == pane_views(old(panes)@) + pane_models_of(
            *workspace,
            tab_idx as int,
            shown,
        ),
        agent_views(final(agents)@) == agent_views(old(agents)@) + agent_models_of(
            *workspace,
            tab_idx as int,
            shown,
        ),
{
    let ghost panes_before = pane_views(panes@);
    let ghost agents_before = agent_views(agents@);
    let ghost all = pane_models_of(*workspace, tab_idx as int, shown);
    let ghost part = |i: int| pane_agent_models(*workspace, tab_idx as int, i, shown);
    let mut i: usize = 0;
    proof {
        assert(panes_before =~= panes_before + all.take(0));
        assert(agents_before =~= agents_before + flattened(0, part));
    }
    while i < workspace.tabs[tab_idx].panes.len()
        invariant
            tab_idx < workspace.tabs@.len(),
            i <= workspace.tabs@[tab_idx as int].panes@.len(),
            all == pane_models_of(*workspace, tab_idx as int, shown),
            part == (|i: int| pane_agent_models(*workspace, tab_idx as int, i, shown)),
            pane_views(panes@) == panes_before + all.take(i as int),
            agent_views(agents@) == agents_before + flattened(i as nat, part),
        decreases workspace.tabs[tab_idx as int].panes.len() - i,
    {
        let ghost panes_now = panes@;
        let ghost agents_now = agents@;
        let pane = &workspace.tabs[tab_idx].panes[i];
        let info = pane_info(workspace, tab_idx, i, shown);
        panes.push(info);
        if let Some(agent) = &pane.agent {
            let running = agent_info(workspace, tab_idx, i, agent, shown);
            agents.push(running);
            proof {
                assert(agent_views(agents@) =~= agent_views(agents_now).push(running@));
            }
        }
        proof {
            assert(pane_views(panes@) =~= pane_views(panes_now).push(info@));
            assert(all.take(i + 1) =~= all.take(i as int).push(info@));
            assert(pane_views(panes@) =~= panes_before + all.take(i + 1));
            assert(agent_views(agents@) =~= agent_views(agents_now) + part(i as int));
            assert(flattened((i + 1) as nat, part) =~= flattened(i as nat, part) + part(i as int));
            assert(agent_views(agents@) =~= agents_before + flattened((i + 1) as nat, part));
        }
        i = i + 1;
    }
    proof {
        assert(all.take(i as int) =~= all);
    }
}

/// Adds the panes of a workspace and their agents.
fn push_workspace_panes(
    workspace: &Workspace,
    shown: bool,
    panes: &mut Vec<PaneInfo>,
    agents: &mut Vec<AgentInfo>,
)
    ensures
        pane_views(final(panes)@) == pane_views(old(panes)@) + workspace_pane_models(
            *workspace,
            shown,
        ),
        agent_views(final(agents)@) == agent_views(old(agents)@) + workspace_agent_models(
            *workspace,
            shown,
        ),
{
    let ghost panes_before = pane_views(panes@);
    let ghost agents_before = agent_views(agents@);
    let ghost pane_part = |i: int| pane_models_of(*workspace, i, shown);
    let ghost agent_part = |i: int| agent_models_of(*workspace, i, shown);
    let mut i: usize = 0;
    proof {
        assert(panes_before =~= panes_before + flattened(0, pane_part));
        assert(agents_before =~= agents_before + flattened(0, agent_part));
    }
    while i < workspace.tabs.len()
        invariant
            i <= workspace.tabs@.len(),
            pane_part == (|i: int| pane_models_of(*workspace, i, shown)),
            agent_part == (|i: int| agent_models_of(*workspace, i, shown)),
            pane_views(panes@) == panes_before + flattened(i as nat, pane_part),
            agent_views(agents@) == agents_before + flattened(i as nat, agent_part),
        decreases workspace.tabs.len() - i,
    {
        push_panes(workspace, i, shown, panes, agents);
        proof {
            assert(flattened((i + 1) as nat, pane_part) =~= flattened(i as nat, pane_part)
                + pane_part(i as int));
            assert(flattened((i + 1) as nat, agent_part) =~= flattened(i as nat, agent_part)
                + agent_part(i as int));
            assert(pane_views(panes@) =~= panes_before + flattened((i + 1) as nat, pane_part));
            assert(agent_views(agents@) =~= agents_before + flattened((i + 1) as nat, agent_part));
        }
        i = i + 1;
    }
}

fn remote_info(row: RemotePanelAgent) -> (info: RemoteAgentInfo)
    ensures
        info@ == remote_agent_model(row@),
{
    let (source_target, source_session) = RemoteHostKey::split_key(row.host_key.as_str());
    let source_target = source_target.to_owned();
    let source_session = source_session.to_owned();
    let presentation = row.presentation;
    RemoteAgentInfo {
        source_target,
        source_session,
        source_label: row.host_label,
        source_online: row.online,
        workspace_id: presentation.workspace_id,
        tab_id: presentation.tab_id,
        pane_id: presentation.pane_id,
        workspace_label: presentation.workspace_label,
        tab_label: presentation.tab_label,
        title: presentation.pane_label,
        terminal_title: presentation.terminal_title,
        terminal_title_stripped: presentation.terminal_title_stripped,
        agent: presentation.agent_kind_label,
        display_agent: presentation.agent_label,
        agent_status: agent_status_for_presentation(presentation.state, presentation.seen),
        state_labels: presentation.state_labels,
        tokens: presentation.tokens,
        state_change_seq: row.state_change_seq,
    }
}

impl App {
    /// Answers a request for the session.
    pub fn handle_session_snapshot(&mut self, id: String) -> (response: SuccessResponse)
        ensures
            response.id == id,
            match response.result {
                ResponseResult::SessionSnapshot { snapshot } => reports(
                    *snapshot,
                    old(self).state,
                ),
            },
            *final(self) == *old(self),
    {
        SuccessResponse {
            id,
            result: ResponseResult::SessionSnapshot { snapshot: Box::new(self.session_snapshot()) },
        }
    }

    /// What the session reports of itself.
    pub fn session_snapshot(&self) -> (snapshot: SessionSnapshot)
        ensures
            reports(snapshot, self.state),
    {
        let mut focused_workspace_id: Option<String> = None;
        let mut focused_tab_id: Option<String> = None;
        let mut focused_pane_id: Option<String> = None;
        if let Some(ws_idx) = self.state.active {
            if ws_idx < self.state.workspaces.len() {
                let workspace = &self.state.workspaces[ws_idx];
                focused_workspace_id = Some(workspace.id.clone());
                if let Some(number) = workspace.public_tab_number(workspace.active_tab) {
                    focused_tab_id = Some(
                        public_tab_id_for_number(workspace.id.as_str(), number),
                    );
                }
                if let Some(number) = workspace.focused_pane_number() {
                    focused_pane_id = Some(
                        public_pane_id_for_number(workspace.id.as_str(), number),
                    );
                }
            } else {
                focused_workspace_id = Some(decimal_text(ws_idx as u64));
            }
        }
        let mut workspaces: Vec<WorkspaceInfo> = Vec::new();
        let mut tabs: Vec<TabInfo> = Vec::new();
        let mut layouts: Vec<PaneLayoutSnapshot> = Vec::new();
        let mut panes: Vec<PaneInfo> = Vec::new();
        let mut agents: Vec<AgentInfo> = Vec::new();
        let ghost all = self.state.workspaces@;
        let ghost active = self.state.active;
        let ghost infos = workspace_models(all, active);
        let ghost tab_part = |i: int| tab_models_of(all[i], is_shown(active, i));
        let ghost layout_part = |i: int| layout_models_of(all[i]);
        let ghost pane_part = |i: int| workspace_pane_models(all[i], is_shown(active, i));
        let ghost agent_part = |i: int| workspace_agent_models(all[i], is_shown(active, i));
        let mut ws_idx: usize = 0;
        proof {
            assert(workspace_views(workspaces@) =~= infos.take(0));
            assert(tab_views(tabs@) =~= flattened(0, tab_part));
            assert(layout_views(layouts@) =~= flattened(0, layout_part));
            assert(pane_views(panes@) =~= flattened(0, pane_part));
            assert(agent_views(agents@) =~= flattened(0, agent_part));
        }
        while ws_idx < self.state.workspaces.len()
            invariant
                ws_idx <= all.len(),
                all == self.state.workspaces@,
                active == self.state.active,
                infos == workspace_models(all, active),
                tab_part == (|i: int| tab_models_of(all[i], is_shown(active, i))),
                layout_part == (|i: int| layout_models_of(all[i])),
                pane_part == (|i: int| workspace_pane_models(all[i], is_shown(active, i))),
                agent_part == (|i: int| workspace_agent_models(all[i], is_shown(active, i))),
                workspace_views(workspaces@) == infos.take(ws_idx as int),
                tab_views(tabs@) == flattened(ws_idx as nat, tab_part),
                layout_views(layouts@) == flattened(ws_idx as nat, layout_part),
                pane_views(panes@) == flattened(ws_idx as nat, pane_part),
                agent_views(agents@) == flattened(ws_idx as nat, agent_part),
            decreases self.state.workspaces.len() - ws_idx,
        {
            let workspace = &self.state.workspaces[ws_idx];
            let ghost now = workspaces@;
            let shown = match self.state.active {
                Some(idx) => idx == ws_idx,
                None => false,
            };
            let info = workspace_info(workspace, ws_idx, shown);
            workspaces.push(info);
            push_tabs(workspace, shown, &mut tabs, &mut layouts);
            push_workspace_panes(workspace, shown, &mut panes, &mut agents);
            proof {
                assert(workspace_views(workspaces@) =~= workspace_views(now).push(info@));
                assert(infos.take(ws_idx + 1) =~= infos.take(ws_idx as int).push(info@));
                let n = (ws_idx + 1) as nat;
                assert(flattened(n, tab_part) == flattened(ws_idx as nat, tab_part) + tab_part(
                    ws_idx as int,
                ));
                assert(flattened(n, layout_part) == flattened(ws_idx as nat, layout_part)
                    + layout_part(ws_idx as int));
                assert(flattened(n, pane_part) == flattened(ws_idx as nat, pane_part) + pane_part(
                    ws_idx as int,
                ));
                assert(flattened(n, agent_part) == flattened(ws_idx as nat, agent_part)
                    + agent_part(ws_idx as int));
            }
            ws_idx = ws_idx + 1;
        }
        proof {
            assert(infos.take(ws_idx as int) =~= infos);
        }
        SessionSnapshot {
            version: BUILD_VERSION.to_owned(),
            protocol: PROTOCOL_VERSION,
            focused_workspace_id,
            focused_tab_id,
            focused_pane_id,
            workspaces,
            tabs,
            panes,
            layouts,
            agents,
            remote_agents: self.remote_agent_infos(),
        }
    }

    /// What the session reports of the agents of remote hosts, in the order of the panel.
    pub fn remote_agent_infos(&self) -> (infos: Vec<RemoteAgentInfo>)
        ensures
            exists|rows: Seq<PanelModel>| #[trigger]
                is_panel(rows, self.state.remote_agents@) && remote_info_models(infos@)
                    == remote_agent_models(rows),
    {
        let mut infos: Vec<RemoteAgentInfo> = Vec::new();
        let rows = self.state.remote_agents.panel_agents();
        let ghost models = row_models(rows@);
        let ghost given = rows@;
        proof {
            assert(remote_info_models(infos@) =~= remote_agent_models(models.take(0)));
        }
        for row in it: rows
            invariant
                it.seq() == given,
                models == row_models(given),
                remote_info_models(infos@) == remote_agent_models(models.take(it.index())),
        {
            let ghost earlier = infos@;
            let info = remote_info(row);
            infos.push(info);
            proof {
                let n = it.index();
                assert(models[n] == row@);
                assert(remote_info_models(infos@) =~= remote_info_models(earlier).push(info@));
                assert(remote_agent_models(models.take(n + 1)) =~= remote_agent_models(
                    models.take(n),
                ).push(remote_agent_model(models[n])));
            }
        }
        proof {
            assert(models.take(models.len() as int) =~= models);
            assert(is_panel(models, self.state.remote_agents@));
        }
        infos
    }
}

/// What is reported to have the focus is what the session names as focused: the workspace, its tab
/// and the pane there.
pub proof fn focused_records_are_those_named(
    state: AppState,
    ws_idx: int,
    tab_idx: int,
    pane_idx: int,
)
    requires
        0 <= ws_idx < state.workspaces@.len(),
        0 <= tab_idx < state.workspaces@[ws_idx].tabs@.len(),
        0 <= pane_idx < state.workspaces@[ws_idx].tabs@[tab_idx].panes@.len(),
    ensures
        ({
            let workspace = state.workspaces@[ws_idx];
            let shown = is_shown(state.active, ws_idx);
            let reported = workspace_model(workspace, ws_idx, shown);
            let tab = tab_model(workspace, tab_idx, shown);
            let pane = pane_model(workspace, tab_idx, pane_idx, shown);
            &&& reported.focused ==> focused_workspace(state) == Some(reported.workspace_id)
            &&& tab.focused ==> reported.focused && focused_tab(state) == Some(tab.tab_id)
                && reported.active_tab_id == tab.tab_id
            &&& pane.focused ==> tab.focused && focused_pane(state) == Some(pane.pane_id)
        }),
{
}

/// A remote agent is reported with the target and the session of the source that it was seen on,
/// for targets without the separator of host keys.
pub proof fn remote_agents_name_their_source(
    row: PanelModel,
    target: Seq<char>,
    session: Seq<char>,
)
    requires
        row.host_key == host_key(target, session),
        !target.contains(KEY_SEPARATOR),
    ensures
        remote_agent_model(row).source_target == target,
        remote_agent_model(row).source_session == session,
{
    key_parts_read_back(target, session);
}

} // verus!
