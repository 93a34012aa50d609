//! The rows of the agent panel, from the agents of local panes and of remote hosts.

use vstd::prelude::*;
use vstd::string::*;

use crate::agent_view::apply::{apply_agent_view, view_applied};
use crate::agent_view::entry::{
    entry_models, AgentPanelEntry, AgentPanelTarget, EntryModel, TargetModel,
};
use crate::agent_view::value::filter_matches;
use crate::detect::AgentState;
use crate::flatten::flattened;
use crate::ordered_map::{MetadataMap, OrderedMap};
use crate::remote_agents::host::KEY_SEPARATOR;
use crate::remote_agents::presentation::option_text;
use crate::remote_agents::registry::{is_panel, row_models, PanelModel, RemotePanelAgent};
use crate::schema::view::{
    AgentViewBuiltinField, AgentViewContext, AgentViewField, AgentViewFilter, AgentViewValue,
};
use crate::state::{
    pane_id_text, presented_workspace, public_pane_id_for_number, public_tab_id_for_number,
    tab_id_text, AppState, Pane, PaneAgent, Tab, Workspace,
};

verus! {

/// The row of the agent in a local pane.
pub open spec fn local_entry(
    workspaces: Seq<Workspace>,
    ws_idx: int,
    tab_idx: int,
    pane_idx: int,
) -> EntryModel {
    let workspace = workspaces[ws_idx];
    let tab = workspace.tabs@[tab_idx];
    let pane = tab.panes@[pane_idx];
    let agent = pane.agent->0;
    EntryModel {
        target: TargetModel::Local { ws_idx, tab_idx, pane_idx },
        view_workspace_id: workspace.id@,
        view_tab_id: tab_id_text(workspace.id@, tab.number as nat),
        view_pane_id: pane_id_text(workspace.id@, pane.number as nat),
        order: (0, ws_idx as usize, tab.number, pane.number),
        primary_label: workspace.label@,
        primary_tab_label: option_text(tab.custom_name),
        pane_label: option_text(pane.label),
        terminal_title: option_text(pane.terminal_title),
        terminal_title_stripped: option_text(pane.terminal_title_stripped),
        agent_label: option_text(agent.label),
        agent_kind_label: option_text(agent.kind_label),
        agent: agent.agent,
        state: agent.state,
        seen: agent.seen,
        last_agent_state_change_seq: agent.state_change_seq,
        state_labels: agent.state_labels@,
        tokens: agent.tokens@,
    }
}

/// The row of a local pane, where it has an agent.
pub open spec fn pane_entries(
    workspaces: Seq<Workspace>,
    ws_idx: int,
    tab_idx: int,
    pane_idx: int,
) -> Seq<EntryModel> {
    if workspaces[ws_idx].tabs@[tab_idx].panes@[pane_idx].agent is Some {
        seq![local_entry(workspaces, ws_idx, tab_idx, pane_idx)]
    } else {
        Seq::empty()
    }
}

pub open spec fn tab_entries(workspaces: Seq<Workspace>, ws_idx: int, tab_idx: int) -> Seq<
    EntryModel,
> {
    flattened(
        workspaces[ws_idx].tabs@[tab_idx].panes@.len(),
        |pane_idx: int| pane_entries(workspaces, ws_idx, tab_idx, pane_idx),
    )
}

pub open spec fn workspace_entries(workspaces: Seq<Workspace>, ws_idx: int) -> Seq<EntryModel> {
    flattened(
        workspaces[ws_idx].tabs@.len(),
        |tab_idx: int| tab_entries(workspaces, ws_idx, tab_idx),
    )
}

/// The rows of all local agents, by workspace, tab and pane.
pub open spec fn local_entries(workspaces: Seq<Workspace>) -> Seq<EntryModel> {
    flattened(workspaces.len(), |ws_idx: int| workspace_entries(workspaces, ws_idx))
}

/// The identifier by which views know a workspace, a tab or a pane of a remote host.
pub open spec fn remote_view_id(host_key: Seq<char>, id: Seq<char>) -> Seq<char> {
    host_key.push(KEY_SEPARATOR) + id
}

/// The label of a remote workspace: its own and that of its host.
pub open spec fn remote_primary_label(row: PanelModel) -> Seq<char> {
    let label = row.presentation.workspace_label + " @ "@ + row.host_label;
    if row.online {
        label
    } else {
        label + " (offline)"@
    }
}

/// The row of a remote agent. While its host cannot be reached, its state is unknown.
pub open spec fn remote_entry(row: PanelModel) -> EntryModel {
    let shown = row.presentation;
    EntryModel {
        target: TargetModel::Remote { source: row.host_key, pane_id: shown.pane_id },
        view_workspace_id: remote_view_id(row.host_key, shown.workspace_id),
        view_tab_id: remote_view_id(row.host_key, shown.tab_id),
        view_pane_id: remote_view_id(row.host_key, shown.pane_id),
        order: (
            if row.host_order < usize::MAX {
                (row.host_order + 1) as usize
            } else {
                usize::MAX
            },
            shown.order.0,
            shown.order.1,
            shown.order.2,
        ),
        primary_label: remote_primary_label(row),
        primary_tab_label: shown.tab_label,
        pane_label: shown.pane_label,
        terminal_title: shown.terminal_title,
        terminal_title_stripped: shown.terminal_title_stripped,
        agent_label: Some(shown.agent_label),
        agent_kind_label: shown.agent_kind_label,
        agent: shown.agent,
        state: if row.online {
            shown.state
        } else {
            AgentState::Unknown
        },
        seen: if row.online {
            shown.seen
        } else {
            true
        },
        last_agent_state_change_seq: row.state_change_seq,
        state_labels: if row.online {
            shown.state_labels
        } else {
            Map::<Seq<char>, Seq<char>>::empty().insert("unknown"@, "offline"@)
        },
        tokens: shown.tokens,
    }
}

/// The rows of remote agents follow the rows of the panel.
pub open spec fn remote_entries(rows: Seq<PanelModel>) -> Seq<EntryModel> {
    rows.map_values(|row: PanelModel| remote_entry(row))
}

/// The rows of the panel before a view is applied: those of local agents, then those of remote
/// ones.
pub open spec fn unfiltered_entries(app: AppState, entries: Seq<AgentPanelEntry>) -> bool {
    exists|rows: Seq<PanelModel>| #[trigger]
        is_panel(rows, app.remote_agents@) && entry_models(entries) == local_entries(
            app.workspaces@,
        ) + remote_entries(rows)
}

/// An identifier of a remote host is never that of a local workspace, tab or pane, as long as
/// local ones do not hold the separator.
pub proof fn remote_ids_are_not_local(host_key: Seq<char>, id: Seq<char>, local: Seq<char>)
    requires
        !local.contains(KEY_SEPARATOR),
    ensures
        remote_view_id(host_key, id) != local,
{
    let remote = remote_view_id(host_key, id);
    assert(remote[host_key.len() as int] == KEY_SEPARATOR);
    if remote == local {
        assert(local.contains(local[host_key.len() as int]));
    }
}

/// Views tell the identifiers of different hosts apart, as long as the identifiers themselves do
/// not hold the separator.
pub proof fn remote_ids_tell_hosts_apart(
    key_a: Seq<char>,
    id_a: Seq<char>,
    key_b: Seq<char>,
    id_b: Seq<char>,
)
    requires
        !id_a.contains(KEY_SEPARATOR),
        !id_b.contains(KEY_SEPARATOR),
        remote_view_id(key_a, id_a) == remote_view_id(key_b, id_b),
    ensures
        key_a == key_b,
        id_a == id_b,
{
    let whole = remote_view_id(key_a, id_a);
    let other = remote_view_id(key_b, id_b);
    assert(whole.len() == key_a.len() + 1 + id_a.len());
    assert(other.len() == key_b.len() + 1 + id_b.len());
    assert(other[key_b.len() as int] == KEY_SEPARATOR);
    assert(whole[key_a.len() as int] == KEY_SEPARATOR);
    assert(whole[key_b.len() as int] == KEY_SEPARATOR);
    if key_a.len() < key_b.len() {
        let k = key_b.len() - key_a.len() - 1;
        assert(0 <= k < id_a.len());
        assert(id_a[k] == whole[key_b.len() as int]);
        assert(id_a.contains(KEY_SEPARATOR));
    } else if key_b.len() < key_a.len() {
        let k = key_a.len() - key_b.len() - 1;
        assert(0 <= k < id_b.len());
        assert(id_b[k] == other[key_a.len() as int]);
        assert(id_b.contains(KEY_SEPARATOR));
    }
    assert(key_a =~= whole.take(key_a.len() as int));
    assert(key_b =~= whole.take(key_b.len() as int));
    assert(id_a =~= whole.skip(key_a.len() as int + 1));
    assert(id_b =~= whole.skip(key_b.len() as int + 1));
}

/// A filter by the current workspace never shows a remote agent, whatever the identifier of its
/// workspace there, as long as local identifiers do not hold the separator.
pub proof fn current_workspace_is_never_remote(app: AppState, row: PanelModel)
    requires
        forall|i: int|
            0 <= i < app.workspaces@.len() ==> !(#[trigger] app.workspaces@[i]).id@.contains(
                KEY_SEPARATOR,
            ),
    ensures
        !filter_matches(
            app,
            remote_entry(row),
            AgentViewFilter::Eq {
                field: AgentViewField::Builtin(AgentViewBuiltinField::WorkspaceId),
                value: AgentViewValue::Context { context: AgentViewContext::CurrentWorkspaceId },
            },
        ),
{
    if let Some(idx) = presented_workspace(app) {
        if idx < app.workspaces@.len() {
            let workspace = app.workspaces@[idx as int];
            remote_ids_are_not_local(row.host_key, row.presentation.workspace_id, workspace.id@);
        }
    }
}

fn entry_for_pane(
    workspace: &Workspace,
    tab: &Tab,
    pane: &Pane,
    agent: &PaneAgent,
    ws_idx: usize,
    tab_idx: usize,
    pane_idx: usize,
    Ghost(workspaces): Ghost<Seq<Workspace>>,
) -> (entry: AgentPanelEntry)
    requires
        *workspace == workspaces[ws_idx as int],
        *tab == workspace.tabs@[tab_idx as int],
        *pane == tab.panes@[pane_idx as int],
        pane.agent == Some(*agent),
    ensures
        entry@ == local_entry(workspaces, ws_idx as int, tab_idx as int, pane_idx as int),
{
    AgentPanelEntry {
        target: AgentPanelTarget::Local { ws_idx, tab_idx, pane_idx },
        view_workspace_id: workspace.id.clone(),
        view_tab_id: public_tab_id_for_number(workspace.id.as_str(), tab.number),
        view_pane_id: public_pane_id_for_number(workspace.id.as_str(), pane.number),
        order: (0, ws_idx, tab.number, pane.number),
        primary_label: workspace.label.clone(),
        primary_tab_label: tab.custom_name.clone(),
        pane_label: pane.label.clone(),
        terminal_title: pane.terminal_title.clone(),
        terminal_title_stripped: pane.terminal_title_stripped.clone(),
        agent_label: agent.label.clone(),
        agent_kind_label: agent.kind_label.clone(),
        agent: agent.agent,
        state: agent.state,
        seen: agent.seen,
        last_agent_state_change_seq: agent.state_change_seq,
        state_labels: agent.state_labels.clone(),
        tokens: agent.tokens.clone(),
    }
}

fn push_tab_entries(
    entries: &mut Vec<AgentPanelEntry>,
    workspaces: &Vec<Workspace>,
    ws_idx: usize,
    tab_idx: usize,
)
    requires
        ws_idx < workspaces@.len(),
        tab_idx < workspaces@[ws_idx as int].tabs@.len(),
    ensures
        entry_models(final(entries)@) == entry_models(old(entries)@) + tab_entries(
            workspaces@,
            ws_idx as int,
            tab_idx as int,
        ),
{
    let workspace = &workspaces[ws_idx];
    let tab = &workspace.tabs[tab_idx];
    let ghost before = entry_models(entries@);
    let ghost part = |pane_idx: int|
        pane_entries(workspaces@, ws_idx as int, tab_idx as int, pane_idx);
    let mut pane_idx: usize = 0;
    proof {
        assert(before + flattened(0, part) =~= before);
    }
    while pane_idx < tab.panes.len()
        invariant
            pane_idx <= tab.panes@.len(),
            ws_idx < workspaces@.len(),
            tab_idx < workspaces@[ws_idx as int].tabs@.len(),
            *workspace == workspaces@[ws_idx as int],
            *tab == workspace.tabs@[tab_idx as int],
            part == (|pane_idx: int|
                pane_entries(workspaces@, ws_idx as int, tab_idx as int, pane_idx)),
            entry_models(entries@) == before + flattened(pane_idx as nat, part),
        decreases tab.panes.len() - pane_idx,
    {
        let pane = &tab.panes[pane_idx];
        let ghost earlier = entries@;
        if let Some(agent) = &pane.agent {
            let entry = entry_for_pane(
                workspace,
                tab,
                pane,
                agent,
                ws_idx,
                tab_idx,
                pane_idx,
                Ghost(workspaces@),
            );
            entries.push(entry);
            proof {
                assert(entry_models(entries@) =~= entry_models(earlier).push(entry@));
            }
        }
        proof {
            assert(entry_models(entries@) =~= entry_models(earlier) + part(pane_idx as int));
            assert(flattened((pane_idx + 1) as nat, part) =~= flattened(pane_idx as nat, part)
                + part(pane_idx as int));
            assert(entry_models(entries@) =~= before + flattened((pane_idx + 1) as nat, part));
        }
        pane_idx = pane_idx + 1;
    }
}

fn push_local_entries(entries: &mut Vec<AgentPanelEntry>, workspaces: &Vec<Workspace>)
    ensures
        entry_models(final(entries)@) == entry_models(old(entries)@) + local_entries(workspaces@),
{
    let ghost before = entry_models(entries@);
    let ghost part = |ws_idx: int| workspace_entries(workspaces@, ws_idx);
    let mut ws_idx: usize = 0;
    proof {
        assert(before + flattened(0, part) =~= before);
    }
    while ws_idx < workspaces.len()
        invariant
            ws_idx <= workspaces@.len(),
            part == (|ws_idx: int| workspace_entries(workspaces@, ws_idx)),
            entry_models(entries@) == before + flattened(ws_idx as nat, part),
        decreases workspaces.len() - ws_idx,
    {
        let ghost inner = |tab_idx: int| tab_entries(workspaces@, ws_idx as int, tab_idx);
        let ghost earlier = entry_models(entries@);
        let tabs = workspaces[ws_idx].tabs.len();
        let mut tab_idx: usize = 0;
        proof {
            assert(earlier + flattened(0, inner) =~= earlier);
        }
        while tab_idx < tabs
            invariant
                tab_idx <= tabs,
                ws_idx < workspaces@.len(),
                tabs == workspaces@[ws_idx as int].tabs@.len(),
                inner == (|tab_idx: int| tab_entries(workspaces@, ws_idx as int, tab_idx)),
                entry_models(entries@) == earlier + flattened(tab_idx as nat, inner),
            decreases tabs - tab_idx,
        {
            push_tab_entries(entries, workspaces, ws_idx, tab_idx);
            proof {
                assert(flattened((tab_idx + 1) as nat, inner) =~= flattened(tab_idx as nat, inner)
                    + inner(tab_idx as int));
                assert(entry_models(entries@) =~= earlier + flattened(
                    (tab_idx + 1) as nat,
                    inner,
                ));
            }
            tab_idx = tab_idx + 1;
        }
        proof {
            assert(flattened(tabs as nat, inner) == workspace_entries(workspaces@, ws_idx as int));
            assert(flattened((ws_idx + 1) as nat, part) =~= flattened(ws_idx as nat, part) + part(
                ws_idx as int,
            ));
            assert(entry_models(entries@) =~= before + flattened((ws_idx + 1) as nat, part));
        }
        ws_idx = ws_idx + 1;
    }
}

fn view_id(host_key: &String, id: &String) -> (result: String)
    ensures
        result@ == remote_view_id(host_key@, id@),
{
    let mut result = host_key.clone();
    result.push(KEY_SEPARATOR);
    result.append(id.as_str());
    result
}

fn entry_for_row(row: RemotePanelAgent) -> (entry: AgentPanelEntry)
    ensures
        entry@ == remote_entry(row@),
{
    let shown = row.presentation;
    let mut primary_label = shown.workspace_label.clone();
    primary_label.append(" @ ");
    primary_label.append(row.host_label.as_str());
    let mut state = shown.state;
    let mut seen = shown.seen;
    let mut state_labels = shown.state_labels;
    if !row.online {
        primary_label.append(" (offline)");
        state = AgentState::Unknown;
        seen = true;
        let mut labels: MetadataMap = OrderedMap::new();
        labels.insert("unknown".to_owned(), "offline".to_owned());
        state_labels = labels;
    }
    AgentPanelEntry {
        view_workspace_id: view_id(&row.host_key, &shown.workspace_id),
        view_tab_id: view_id(&row.host_key, &shown.tab_id),
        view_pane_id: view_id(&row.host_key, &shown.pane_id),
        target: AgentPanelTarget::Remote { source: row.host_key, pane_id: shown.pane_id },
        order: (row.host_order.saturating_add(1), shown.order.0, shown.order.1, shown.order.2),
        primary_label,
        primary_tab_label: shown.tab_label,
        pane_label: shown.pane_label,
        terminal_title: shown.terminal_title,
        terminal_title_stripped: shown.terminal_title_stripped,
        agent_label: Some(shown.agent_label),
        agent_kind_label: shown.agent_kind_label,
        agent: shown.agent,
        state,
        seen,
        last_agent_state_change_seq: row.state_change_seq,
        state_labels,
        tokens: shown.tokens,
    }
}

/// The rows of the agent panel, as the current view shows them.
pub fn agent_panel_entries(app: &AppState) -> (entries: Vec<AgentPanelEntry>)
    ensures
        exists|all: Seq<AgentPanelEntry>| #[trigger]
            unfiltered_entries(*app, all) && view_applied(*app, all, entries@),
{
    let mut entries: Vec<AgentPanelEntry> = Vec::new();
    push_local_entries(&mut entries, &app.workspaces);
    let rows = app.remote_agents.panel_agents();
    let ghost models = row_models(rows@);
    let ghost local = local_entries(app.workspaces@);
    let ghost given = rows@;
    proof {
        assert(entry_models(entries@) =~= local + remote_entries(models.take(0)));
    }
    for row in it: rows
        invariant
            it.seq() == given,
            models == row_models(given),
            entry_models(entries@) == local + remote_entries(models.take(it.index())),
    {
        let ghost earlier = entries@;
        let entry = entry_for_row(row);
        entries.push(entry);
        proof {
            let n = it.index();
            assert(models[n] == row@);
            assert(entry_models(entries@) =~= entry_models(earlier).push(entry@));
            assert(remote_entries(models.take(n + 1)) =~= remote_entries(models.take(n)).push(
                remote_entry(models[n]),
            ));
            assert(entry_models(entries@) =~= local + remote_entries(models.take(n + 1)));
        }
    }
    proof {
        assert(models.take(models.len() as int) =~= models);
        assert(is_panel(models, app.remote_agents@));
        assert(unfiltered_entries(*app, entries@));
    }
    apply_agent_view(app, &mut entries);
    entries
}

} // verus!
