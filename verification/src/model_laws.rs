//! What is said of the models of records holds of the records themselves, field by field.

use vstd::prelude::*;

use crate::agent_view::entry::{entry_models, AgentPanelEntry, AgentPanelTarget, TargetModel};
use crate::agent_view::value::{option_value, EvalModel, EvalValue};
use crate::remote_agents::host::{
    RemoteAgentUpdateKind, RemoteHostKey, RemoteHostRegistration, UpdateModel,
};
use crate::remote_agents::input::{LineRead, LineReadModel};
use crate::remote_agents::presentation::{RemoteAgentPresentation, RemoteAgentSnapshot};
use crate::remote_agents::registry::{row_models, RemotePanelAgent};
use crate::remote_agents::supervisor::registration_models;
use crate::schema::session::{
    AgentInfo, PaneInfo, PaneLayoutSnapshot, RemoteAgentInfo, SessionSnapshot, TabInfo,
    WorkspaceInfo,
};
use crate::session::remote_info_models;

verus! {

/// A presented agent is seen by what stands in its fields.
pub proof fn presented_agents_are_seen_by_their_fields(agent: RemoteAgentPresentation)
    ensures
        agent@.workspace_id == agent.workspace_id@,
        agent@.tab_id == agent.tab_id@,
        agent@.pane_id == agent.pane_id@,
        agent@.workspace_label == agent.workspace_label@,
        agent.tab_label is None ==> agent@.tab_label is None,
        agent.tab_label matches Some(text) ==> agent@.tab_label == Some(text@),
        agent.pane_label is None ==> agent@.pane_label is None,
        agent.pane_label matches Some(text) ==> agent@.pane_label == Some(text@),
        agent.terminal_title is None ==> agent@.terminal_title is None,
        agent.terminal_title matches Some(text) ==> agent@.terminal_title == Some(text@),
        agent.terminal_title_stripped is None ==> agent@.terminal_title_stripped is None,
        agent.terminal_title_stripped matches Some(text) ==> agent@.terminal_title_stripped
            == Some(text@),
        agent@.agent_label == agent.agent_label@,
        agent.agent_kind_label is None ==> agent@.agent_kind_label is None,
        agent.agent_kind_label matches Some(text) ==> agent@.agent_kind_label == Some(text@),
        agent@.agent == agent.agent,
        agent@.state == agent.state,
        agent@.seen == agent.seen,
        agent@.state_labels == agent.state_labels@,
        agent@.tokens == agent.tokens@,
        agent@.display_order == agent.display_order,
        agent@.order == agent.order,
{
}

/// A row of the panel is seen by what stands in its fields.
pub proof fn panel_rows_are_seen_by_their_fields(row: RemotePanelAgent)
    ensures
        row@.host_key == row.host_key@,
        row@.host_label == row.host_label@,
        row@.host_order == row.host_order,
        row@.online == row.online,
        row@.presentation == row.presentation@,
        row@.state_change_seq == row.state_change_seq,
{
}

/// A registration is seen by what stands in its fields.
pub proof fn registrations_are_seen_by_their_fields(registration: RemoteHostRegistration)
    ensures
        registration@.key == registration.key@,
        registration@.label == registration.label@,
        registration@.generation == registration.generation,
        registration@.order == registration.order as int,
{
}

/// A reported workspace is seen by what stands in its fields.
pub proof fn reported_workspaces_are_seen_by_their_fields(info: WorkspaceInfo)
    ensures
        info@.workspace_id == info.workspace_id@,
        info@.number == info.number,
        info@.label == info.label@,
        info@.focused == info.focused,
        info@.pane_count == info.pane_count,
        info@.tab_count == info.tab_count,
        info@.active_tab_id == info.active_tab_id@,
        info@.agent_status == info.agent_status,
        info@.tokens == info.tokens@,
        info.worktree is None ==> info@.worktree is None,
        info.worktree matches Some(text) ==> info@.worktree == Some(text@),
{
}

/// A reported tab is seen by what stands in its fields.
pub proof fn reported_tabs_are_seen_by_their_fields(info: TabInfo)
    ensures
        info@.tab_id == info.tab_id@,
        info@.workspace_id == info.workspace_id@,
        info@.number == info.number,
        info@.label == info.label@,
        info@.custom_label == info.custom_label,
        info@.focused == info.focused,
        info@.pane_count == info.pane_count,
        info@.agent_status == info.agent_status,
{
}

/// A reported pane is seen by what stands in its fields.
pub proof fn reported_panes_are_seen_by_their_fields(info: PaneInfo)
    ensures
        info@.pane_id == info.pane_id@,
        info@.number == info.number,
        info@.terminal_id == info.terminal_id@,
        info@.workspace_id == info.workspace_id@,
        info@.tab_id == info.tab_id@,
        info@.focused == info.focused,
        info.cwd is None ==> info@.cwd is None,
        info.cwd matches Some(text) ==> info@.cwd == Some(text@),
        info.foreground_cwd is None ==> info@.foreground_cwd is None,
        info.foreground_cwd matches Some(text) ==> info@.foreground_cwd == Some(text@),
        info.label is None ==> info@.label is None,
        info.label matches Some(text) ==> info@.label == Some(text@),
        info.agent is None ==> info@.agent is None,
        info.agent matches Some(text) ==> info@.agent == Some(text@),
        info.title is None ==> info@.title is None,
        info.title matches Some(text) ==> info@.title == Some(text@),
        info.terminal_title is None ==> info@.terminal_title is None,
        info.terminal_title matches Some(text) ==> info@.terminal_title == Some(text@),
        info.terminal_title_stripped is None ==> info@.terminal_title_stripped is None,
        info.terminal_title_stripped matches Some(text) ==> info@.terminal_title_stripped
            == Some(text@),
        info.display_agent is None ==> info@.display_agent is None,
        info.display_agent matches Some(text) ==> info@.display_agent == Some(text@),
        info@.agent_status == info.agent_status,
        info@.state_labels == info.state_labels@,
        info@.tokens == info.tokens@,
        info.agent_session is None ==> info@.agent_session is None,
        info.agent_session matches Some(text) ==> info@.agent_session == Some(text@),
        info.scroll is None ==> info@.scroll is None,
        info.scroll matches Some(text) ==> info@.scroll == Some(text@),
        info@.revision == info.revision,
{
}

/// A reported agent is seen by what stands in its fields.
pub proof fn reported_agents_are_seen_by_their_fields(info: AgentInfo)
    ensures
        info@.terminal_id == info.terminal_id@,
        info.name is None ==> info@.name is None,
        info.name matches Some(text) ==> info@.name == Some(text@),
        info.agent is None ==> info@.agent is None,
        info.agent matches Some(text) ==> info@.agent == Some(text@),
        info.title is None ==> info@.title is None,
        info.title matches Some(text) ==> info@.title == Some(text@),
        info.terminal_title is None ==> info@.terminal_title is None,
        info.terminal_title matches Some(text) ==> info@.terminal_title == Some(text@),
        info.terminal_title_stripped is None ==> info@.terminal_title_stripped is None,
        info.terminal_title_stripped matches Some(text) ==> info@.terminal_title_stripped
            == Some(text@),
        info.display_agent is None ==> info@.display_agent is None,
        info.display_agent matches Some(text) ==> info@.display_agent == Some(text@),
        info@.agent_status == info.agent_status,
        info@.screen_detection_skipped == info.screen_detection_skipped,
        info@.state_labels == info.state_labels@,
        info@.tokens == info.tokens@,
        info.agent_session is None ==> info@.agent_session is None,
        info.agent_session matches Some(text) ==> info@.agent_session == Some(text@),
        info@.workspace_id == info.workspace_id@,
        info@.tab_id == info.tab_id@,
        info@.pane_id == info.pane_id@,
        info@.focused == info.focused,
        info@.launch_pending == info.launch_pending,
        info@.interactive_ready == info.interactive_ready,
        info@.state_change_seq == info.state_change_seq,
        info.cwd is None ==> info@.cwd is None,
        info.cwd matches Some(text) ==> info@.cwd == Some(text@),
        info.foreground_cwd is None ==> info@.foreground_cwd is None,
        info.foreground_cwd matches Some(text) ==> info@.foreground_cwd == Some(text@),
        info@.revision == info.revision,
{
}

/// A reported remote agent is seen by what stands in its fields.
pub proof fn reported_remote_agents_are_seen_by_their_fields(info: RemoteAgentInfo)
    ensures
        info@.source_target == info.source_target@,
        info@.source_session == info.source_session@,
        info@.source_label == info.source_label@,
        info@.source_online == info.source_online,
        info@.workspace_id == info.workspace_id@,
        info@.tab_id == info.tab_id@,
        info@.pane_id == info.pane_id@,
        info@.workspace_label == info.workspace_label@,
        info.tab_label is None ==> info@.tab_label is None,
        info.tab_label matches Some(text) ==> info@.tab_label == Some(text@),
        info.title is None ==> info@.title is None,
        info.title matches Some(text) ==> info@.title == Some(text@),
        info.terminal_title is None ==> info@.terminal_title is None,
        info.terminal_title matches Some(text) ==> info@.terminal_title == Some(text@),
        info.terminal_title_stripped is None ==> info@.terminal_title_stripped is None,
        info.terminal_title_stripped matches Some(text) ==> info@.terminal_title_stripped
            == Some(text@),
        info.agent is None ==> info@.agent is None,
        info.agent matches Some(text) ==> info@.agent == Some(text@),
        info@.display_agent == info.display_agent@,
        info@.agent_status == info.agent_status,
        info@.state_labels == info.state_labels@,
        info@.tokens == info.tokens@,
        info@.state_change_seq == info.state_change_seq,
{
}

/// A reported session is seen by what stands in its fields.
pub proof fn reported_sessions_are_seen_by_their_fields(snapshot: SessionSnapshot)
    ensures
        snapshot@.version == snapshot.version@,
        snapshot@.protocol == snapshot.protocol,
        snapshot.focused_workspace_id is None ==> snapshot@.focused_workspace_id is None,
        snapshot.focused_workspace_id matches Some(text) ==> snapshot@.focused_workspace_id
            == Some(text@),
        snapshot.focused_tab_id is None ==> snapshot@.focused_tab_id is None,
        snapshot.focused_tab_id matches Some(text) ==> snapshot@.focused_tab_id == Some(text@),
        snapshot.focused_pane_id is None ==> snapshot@.focused_pane_id is None,
        snapshot.focused_pane_id matches Some(text) ==> snapshot@.focused_pane_id == Some(text@),
        snapshot@.workspaces.len() == snapshot.workspaces@.len(),
        forall|i: int|
            0 <= i < snapshot.workspaces@.len() ==> #[trigger] snapshot@.workspaces[i]
                == snapshot.workspaces@[i]@,
        snapshot@.tabs.len() == snapshot.tabs@.len(),
        forall|i: int|
            0 <= i < snapshot.tabs@.len() ==> #[trigger] snapshot@.tabs[i]
                == snapshot.tabs@[i]@,
        snapshot@.panes.len() == snapshot.panes@.len(),
        forall|i: int|
            0 <= i < snapshot.panes@.len() ==> #[trigger] snapshot@.panes[i]
                == snapshot.panes@[i]@,
        snapshot@.layouts.len() == snapshot.layouts@.len(),
        forall|i: int|
            0 <= i < snapshot.layouts@.len() ==> #[trigger] snapshot@.layouts[i]
                == snapshot.layouts@[i]@,
        snapshot@.agents.len() == snapshot.agents@.len(),
        forall|i: int|
            0 <= i < snapshot.agents@.len() ==> #[trigger] snapshot@.agents[i]
                == snapshot.agents@[i]@,
        snapshot@.remote_agents.len() == snapshot.remote_agents@.len(),
        forall|i: int|
            0 <= i < snapshot.remote_agents@.len() ==> #[trigger] snapshot@.remote_agents[i]
                == snapshot.remote_agents@[i]@,
{
}

/// An entry of the agent view is seen by what stands in its fields.
pub proof fn panel_entries_are_seen_by_their_fields(entry: AgentPanelEntry)
    ensures
        entry@.target == entry.target@,
        entry@.view_workspace_id == entry.view_workspace_id@,
        entry@.view_tab_id == entry.view_tab_id@,
        entry@.view_pane_id == entry.view_pane_id@,
        entry@.order == entry.order,
        entry@.primary_label == entry.primary_label@,
        entry.primary_tab_label is None ==> entry@.primary_tab_label is None,
        entry.primary_tab_label matches Some(text) ==> entry@.primary_tab_label == Some(text@),
        entry.pane_label is None ==> entry@.pane_label is None,
        entry.pane_label matches Some(text) ==> entry@.pane_label == Some(text@),
        entry.terminal_title is None ==> entry@.terminal_title is None,
        entry.terminal_title matches Some(text) ==> entry@.terminal_title == Some(text@),
        entry.terminal_title_stripped is None ==> entry@.terminal_title_stripped is None,
        entry.terminal_title_stripped matches Some(text) ==> entry@.terminal_title_stripped
            == Some(text@),
        entry.agent_label is None ==> entry@.agent_label is None,
        entry.agent_label matches Some(text) ==> entry@.agent_label == Some(text@),
        entry.agent_kind_label is None ==> entry@.agent_kind_label is None,
        entry.agent_kind_label matches Some(text) ==> entry@.agent_kind_label == Some(text@),
        entry@.agent == entry.agent,
        entry@.state == entry.state,
        entry@.seen == entry.seen,
        entry@.last_agent_state_change_seq == entry.last_agent_state_change_seq,
        entry@.state_labels == entry.state_labels@,
        entry@.tokens == entry.tokens@,
{
}

/// A layout is seen by its workspace, its tab, and its panes in their order.
pub proof fn layouts_are_seen_by_their_fields(layout: PaneLayoutSnapshot)
    ensures
        layout@.workspace_id == layout.workspace_id@,
        layout@.tab_id == layout.tab_id@,
        layout@.pane_ids.len() == layout.pane_ids@.len(),
        forall|i: int|
            0 <= i < layout.pane_ids@.len() ==> #[trigger] layout@.pane_ids[i]
                == layout.pane_ids@[i]@,
{
}

/// A snapshot is seen by its version, its protocol, and its agents in their order.
pub proof fn snapshots_are_seen_by_their_fields(snapshot: RemoteAgentSnapshot)
    ensures
        snapshot@.version == snapshot.version@,
        snapshot@.protocol == snapshot.protocol,
        snapshot@.agents.len() == snapshot.agents@.len(),
        forall|i: int|
            0 <= i < snapshot.agents@.len() ==> #[trigger] snapshot@.agents[i]
                == snapshot.agents@[i]@,
{
}

/// A host is known by its key as it is, an update by what it brings, and what a reader makes of its
/// bytes by the line and what was taken for it.
pub proof fn updates_and_lines_are_seen_as_they_are(
    key: RemoteHostKey,
    kind: RemoteAgentUpdateKind,
    read: LineRead,
)
    ensures
        key@ == key.0@,
        kind matches RemoteAgentUpdateKind::Snapshot(snapshot) ==> kind@ == UpdateModel::Snapshot(
            snapshot@,
        ),
        kind matches RemoteAgentUpdateKind::Offline { error } ==> kind@ == (UpdateModel::Offline {
            error: error@,
        }),
        read is More ==> read@ is More,
        read is End ==> read@ is End,
        read matches LineRead::Line { consumed, line } ==> read@ == (LineReadModel::Line {
            consumed: consumed as int,
            line: line@,
        }),
{
}

/// A target is seen by where its agent stands.
pub proof fn targets_are_seen_by_their_place(target: AgentPanelTarget)
    ensures
        target matches AgentPanelTarget::Local { ws_idx, tab_idx, pane_idx } ==> target@ == (
        TargetModel::Local {
            ws_idx: ws_idx as int,
            tab_idx: tab_idx as int,
            pane_idx: pane_idx as int,
        }),
        target matches AgentPanelTarget::Remote { source, pane_id } ==> target@ == (
        TargetModel::Remote { source: source@, pane_id: pane_id@ }),
{
}

/// A value is seen by its kind and by what it holds, and a list of rows, entries, registrations or
/// remote agents by its items in their order.
pub proof fn values_and_lists_are_seen_as_they_are(
    value: EvalValue,
    rows: Seq<RemotePanelAgent>,
    entries: Seq<AgentPanelEntry>,
    registrations: Seq<RemoteHostRegistration>,
    infos: Seq<RemoteAgentInfo>,
)
    ensures
        value matches EvalValue::String(text) ==> value@ == EvalModel::Text(text@),
        value matches EvalValue::Bool(flag) ==> value@ == EvalModel::Bool(flag),
        value matches EvalValue::Number(number) ==> value@ == EvalModel::Number(number),
        value matches EvalValue::Order(order) ==> value@ == EvalModel::Order(order@),
        option_value(Some(value)) == Some(value@),
        option_value(None) is None,
        row_models(rows).len() == rows.len(),
        forall|i: int| 0 <= i < rows.len() ==> #[trigger] row_models(rows)[i] == rows[i]@,
        entry_models(entries).len() == entries.len(),
        forall|i: int|
            0 <= i < entries.len() ==> #[trigger] entry_models(entries)[i] == entries[i]@,
        registration_models(registrations).len() == registrations.len(),
        forall|i: int|
            0 <= i < registrations.len() ==> #[trigger] registration_models(registrations)[i]
                == registrations[i]@,
        remote_info_models(infos).len() == infos.len(),
        forall|i: int|
            0 <= i < infos.len() ==> #[trigger] remote_info_models(infos)[i] == infos[i]@,
{
}

} // verus!
