//! What the rows of the agent panel show of local panes and of remote hosts.

use vstd::prelude::*;
use vstd::string::*;

use crate::agent_view::entry::{entry_models, AgentPanelEntry, AgentPanelTarget};
use crate::detect::AgentState;
use crate::flatten::{
    flattened, items_are_listed_by_parts, items_of_parts_are_listed, listed_items_are_of_parts,
};
use crate::remote_agents::panel_laws::{
    rows_go_by_host_workspace_tab_and_pane, rows_show_what_is_stored, stored_agents_have_one_row,
};
use crate::remote_agents::presentation::option_text;
use crate::remote_agents::registry::{is_panel, keyed_by_pane, PanelModel};
use crate::state::{pane_id_text, tab_id_text, AppState, Workspace};
use crate::text::text_less_asymmetric;
use crate::ui::{
    local_entries, local_entry, pane_entries, remote_entries, remote_entry, remote_view_id,
    tab_entries, unfiltered_entries, workspace_entries,
};

verus! {

/// A row points at the local pane at the given positions.
pub open spec fn points_at(target: AgentPanelTarget, place: (int, int, int)) -> bool {
    target matches AgentPanelTarget::Local { ws_idx, tab_idx, pane_idx } && ws_idx == place.0
        && tab_idx == place.1 && pane_idx == place.2
}

/// Where the row of a pane stands among the rows of its workspace.
proof fn lemma_row_in_workspace(workspaces: Seq<Workspace>, w: int, t: int, p: int) -> (at: int)
    requires
        0 <= w < workspaces.len(),
        0 <= t < workspaces[w].tabs@.len(),
        0 <= p < workspaces[w].tabs@[t].panes@.len(),
        workspaces[w].tabs@[t].panes@[p].agent is Some,
    ensures
        0 <= at - flattened(t as nat, |i: int| tab_entries(workspaces, w, i)).len() < tab_entries(
            workspaces,
            w,
            t,
        ).len(),
        at - flattened(t as nat, |i: int| tab_entries(workspaces, w, i)).len() == flattened(
            p as nat,
            |i: int| pane_entries(workspaces, w, t, i),
        ).len(),
        0 <= at < workspace_entries(workspaces, w).len(),
        workspace_entries(workspaces, w)[at] == local_entry(workspaces, w, t, p),
{
    let inner = |i: int| tab_entries(workspaces, w, i);
    let inmost = |i: int| pane_entries(workspaces, w, t, i);
    items_of_parts_are_listed(workspaces[w].tabs@[t].panes@.len(), inmost, p, 0);
    let x = flattened(p as nat, inmost).len() as int;
    items_of_parts_are_listed(workspaces[w].tabs@.len(), inner, t, x);
    flattened(t as nat, inner).len() + x
}

/// The rows of local agents stand in the order of the workspaces, their tabs and the panes there.
proof fn lemma_local_order(
    workspaces: Seq<Workspace>,
    a: (int, int, int),
    b: (int, int, int),
) -> (places: (int, int))
    requires
        0 <= a.0 <= b.0 < workspaces.len(),
        0 <= a.1 < workspaces[a.0].tabs@.len(),
        0 <= a.2 < workspaces[a.0].tabs@[a.1].panes@.len(),
        0 <= b.1 < workspaces[b.0].tabs@.len(),
        0 <= b.2 < workspaces[b.0].tabs@[b.1].panes@.len(),
        workspaces[a.0].tabs@[a.1].panes@[a.2].agent is Some,
        workspaces[b.0].tabs@[b.1].panes@[b.2].agent is Some,
        a.0 < b.0 || a.1 < b.1 || (a.1 == b.1 && a.2 < b.2) || a == b,
    ensures
        0 <= places.0 <= places.1 < local_entries(workspaces).len(),
        a != b ==> places.0 < places.1,
        local_entries(workspaces)[places.0] == local_entry(workspaces, a.0, a.1, a.2),
        local_entries(workspaces)[places.1] == local_entry(workspaces, b.0, b.1, b.2),
{
    let part = |i: int| workspace_entries(workspaces, i);
    let x = lemma_row_in_workspace(workspaces, a.0, a.1, a.2);
    let y = lemma_row_in_workspace(workspaces, b.0, b.1, b.2);
    let n = workspaces.len();
    items_of_parts_are_listed(n, part, a.0, x);
    items_of_parts_are_listed(n, part, b.0, y);
    if a != b {
        if a.0 == b.0 {
            let inner = |i: int| tab_entries(workspaces, a.0, i);
            let from = x - flattened(a.1 as nat, inner).len();
            let to = y - flattened(b.1 as nat, inner).len();
            if a.1 == b.1 {
                let inmost = |i: int| pane_entries(workspaces, a.0, a.1, i);
                items_are_listed_by_parts(
                    workspaces[a.0].tabs@[a.1].panes@.len(),
                    inmost,
                    a.2,
                    0,
                    b.2,
                    0,
                );
            }
            items_are_listed_by_parts(workspaces[a.0].tabs@.len(), inner, a.1, from, b.1, to);
        }
        items_are_listed_by_parts(n, part, a.0, x, b.0, y);
    }
    (flattened(a.0 as nat, part).len() + x, flattened(b.0 as nat, part).len() + y)
}

/// The rows of the panel that follow those of local agents.
proof fn lemma_rows_listed(app: AppState, entries: Seq<AgentPanelEntry>) -> (rows: Seq<PanelModel>)
    requires
        unfiltered_entries(app, entries),
    ensures
        is_panel(rows, app.remote_agents@),
        entries.len() == local_entries(app.workspaces@).len() + rows.len(),
        forall|k: int|
            0 <= k < local_entries(app.workspaces@).len() ==> (#[trigger] entries[k])@
                == local_entries(app.workspaces@)[k],
        forall|k: int|
            local_entries(app.workspaces@).len() <= k < entries.len() ==> (#[trigger] entries[k])@
                == remote_entry(rows[k - local_entries(app.workspaces@).len()]),
{
    let local = local_entries(app.workspaces@);
    let hosts = app.remote_agents@;
    let rows = choose|rows: Seq<PanelModel>| #[trigger]
        is_panel(rows, hosts) && entry_models(entries) == local_entries(app.workspaces@)
            + remote_entries(rows);
    let models = local + remote_entries(rows);
    assert(is_panel(rows, hosts) && entry_models(entries) == models);
    assert(entry_models(entries).len() == entries.len());
    assert(remote_entries(rows).len() == rows.len());
    assert forall|k: int| 0 <= k < entries.len() implies (#[trigger] entries[k])@ == models[k] by {
        assert(entry_models(entries)[k] == entries[k]@);
    }
    assert forall|k: int| local.len() <= k < entries.len() implies (#[trigger] entries[k])@
        == remote_entry(rows[k - local.len()]) by {
        assert(models[k] == remote_entries(rows)[k - local.len()]);
    }
    rows
}

/// Before a view is applied the panel has a row for each local pane with an agent, in the order of
/// the workspaces, their tabs and the panes there.
pub proof fn local_agents_are_listed_in_order(
    app: AppState,
    entries: Seq<AgentPanelEntry>,
    a: (int, int, int),
    b: (int, int, int),
)
    requires
        unfiltered_entries(app, entries),
        0 <= a.0 <= b.0 < app.workspaces@.len(),
        0 <= a.1 < app.workspaces@[a.0].tabs@.len(),
        0 <= a.2 < app.workspaces@[a.0].tabs@[a.1].panes@.len(),
        0 <= b.1 < app.workspaces@[b.0].tabs@.len(),
        0 <= b.2 < app.workspaces@[b.0].tabs@[b.1].panes@.len(),
        app.workspaces@[a.0].tabs@[a.1].panes@[a.2].agent is Some,
        app.workspaces@[b.0].tabs@[b.1].panes@[b.2].agent is Some,
        a.0 < b.0 || a.1 < b.1 || (a.1 == b.1 && a.2 < b.2) || a == b,
    ensures
        exists|k: int, l: int|
            0 <= k <= l < entries.len() && (a != b ==> k < l) && points_at(
                (#[trigger] entries[k]).target,
                a,
            ) && points_at((#[trigger] entries[l]).target, b),
{
    let rows = lemma_rows_listed(app, entries);
    let local = local_entries(app.workspaces@);
    let (k, l) = lemma_local_order(app.workspaces@, a, b);
    assert(entries[k]@ == local[k]);
    assert(entries[l]@ == local[l]);
}

/// The row of a local agent is that of the pane at which it points: its identifiers, its labels and
/// titles, its place, and what is known of the agent, each in its own place.
pub proof fn local_rows_are_their_own(
    app: AppState,
    entries: Seq<AgentPanelEntry>,
    k: int,
    w: usize,
    t: usize,
    p: usize,
)
    requires
        unfiltered_entries(app, entries),
        0 <= k < entries.len(),
        entries[k].target == (AgentPanelTarget::Local { ws_idx: w, tab_idx: t, pane_idx: p }),
    ensures
        ({
            let row = entries[k];
            let workspace = app.workspaces@[w as int];
            let tab = workspace.tabs@[t as int];
            let pane = tab.panes@[p as int];
            let agent = pane.agent->0;
            &&& w < app.workspaces@.len()
            &&& t < workspace.tabs@.len()
            &&& p < tab.panes@.len()
            &&& pane.agent is Some
            &&& row.view_workspace_id@ == workspace.id@
            &&& row.view_tab_id@ == tab_id_text(workspace.id@, tab.number as nat)
            &&& row.view_pane_id@ == pane_id_text(workspace.id@, pane.number as nat)
            &&& row.order.0 == 0
            &&& row.order.1 == w
            &&& row.order.2 == tab.number
            &&& row.order.3 == pane.number
            &&& row.primary_label@ == workspace.label@
            &&& option_text(row.primary_tab_label) == option_text(tab.custom_name)
            &&& option_text(row.pane_label) == option_text(pane.label)
            &&& option_text(row.terminal_title) == option_text(pane.terminal_title)
            &&& option_text(row.terminal_title_stripped) == option_text(
                pane.terminal_title_stripped,
            )
            &&& option_text(row.agent_label) == option_text(agent.label)
            &&& option_text(row.agent_kind_label) == option_text(agent.kind_label)
            &&& row.agent == agent.agent
            &&& row.state == agent.state
            &&& row.seen == agent.seen
            &&& row.last_agent_state_change_seq == agent.state_change_seq
            &&& row.state_labels@ == agent.state_labels@
            &&& row.tokens@ == agent.tokens@
        }),
{
    let rows = lemma_rows_listed(app, entries);
    let all = app.workspaces@;
    let local = local_entries(all);
    if k >= local.len() {
        assert(entries[k]@ == remote_entry(rows[k - local.len()]));
        assert(false);
    }
    assert(entries[k]@ == local[k]);
    let part = |i: int| workspace_entries(all, i);
    let (a, x) = listed_items_are_of_parts(all.len(), part, k);
    let inner = |i: int| tab_entries(all, a, i);
    let (b, y) = listed_items_are_of_parts(all[a].tabs@.len(), inner, x);
    let inmost = |i: int| pane_entries(all, a, b, i);
    let (c, z) = listed_items_are_of_parts(all[a].tabs@[b].panes@.len(), inmost, y);
    assert(entries[k]@ == local_entry(all, a, b, c));
}

/// Before a view is applied the rows of local agents stand before those of remote ones.
pub proof fn local_agents_are_listed_first(
    app: AppState,
    entries: Seq<AgentPanelEntry>,
    k: int,
    l: int,
)
    requires
        unfiltered_entries(app, entries),
        0 <= k < l < entries.len(),
        entries[l].target is Local,
    ensures
        entries[k].target is Local,
{
    let rows = lemma_rows_listed(app, entries);
    let all = app.workspaces@;
    let local = local_entries(all);
    if l >= local.len() {
        assert(entries[l]@ == remote_entry(rows[l - local.len()]));
    }
    assert(entries[k]@ == local[k]);
    let part = |i: int| workspace_entries(all, i);
    let (a, x) = listed_items_are_of_parts(all.len(), part, k);
    let inner = |i: int| tab_entries(all, a, i);
    let (b, y) = listed_items_are_of_parts(all[a].tabs@.len(), inner, x);
    let inmost = |i: int| pane_entries(all, a, b, i);
    let (c, z) = listed_items_are_of_parts(all[a].tabs@[b].panes@.len(), inmost, y);
    assert(entries[k]@ == local_entry(all, a, b, c));
}

/// The row of a remote agent is what is stored of the agent at which it points: views know its
/// workspace, tab and pane under the key of its host, its label names its workspace and its host,
/// and it stands after the local agents and those of earlier hosts. While its host cannot be
/// reached, this is said and its state is unknown.
pub proof fn remote_rows_are_their_own(
    app: AppState,
    entries: Seq<AgentPanelEntry>,
    k: int,
    source: String,
    pane_id: String,
)
    requires
        unfiltered_entries(app, entries),
        0 <= k < entries.len(),
        entries[k].target == (AgentPanelTarget::Remote { source, pane_id }),
    ensures
        ({
            let row = entries[k];
            let hosts = app.remote_agents@;
            let host = hosts[source@];
            let stored = host.agents[pane_id@];
            let shown = stored.presentation;
            &&& hosts.contains_key(source@)
            &&& host.agents.contains_key(pane_id@)
            &&& row.view_workspace_id@ == source@ + seq!['\u{1f}'] + shown.workspace_id
            &&& row.view_tab_id@ == source@ + seq!['\u{1f}'] + shown.tab_id
            &&& row.view_pane_id@ == source@ + seq!['\u{1f}'] + pane_id@
            &&& host.order < usize::MAX ==> row.order.0 == host.order + 1
            &&& row.order.0 > 0
            &&& row.order.1 == shown.order.0
            &&& row.order.2 == shown.order.1
            &&& row.order.3 == shown.order.2
            &&& option_text(row.primary_tab_label) == shown.tab_label
            &&& option_text(row.pane_label) == shown.pane_label
            &&& option_text(row.terminal_title) == shown.terminal_title
            &&& option_text(row.terminal_title_stripped) == shown.terminal_title_stripped
            &&& option_text(row.agent_label) == Some(shown.agent_label)
            &&& option_text(row.agent_kind_label) == shown.agent_kind_label
            &&& row.agent == shown.agent
            &&& row.last_agent_state_change_seq == stored.state_change_seq
            &&& row.tokens@ == shown.tokens
            &&& host.online ==> row.primary_label@ == shown.workspace_label + " @ "@ + host.label
                && row.state == shown.state && row.seen == shown.seen && row.state_labels@
                == shown.state_labels
            &&& !host.online ==> row.primary_label@ == shown.workspace_label + " @ "@ + host.label
                + " (offline)"@ && row.state == AgentState::Unknown && row.seen
                && row.state_labels@ == Map::<Seq<char>, Seq<char>>::empty().insert(
                "unknown"@,
                "offline"@,
            )
        }),
{
    let rows = lemma_rows_listed(app, entries);
    let all = app.workspaces@;
    let local = local_entries(all);
    if k < local.len() {
        assert(entries[k]@ == local[k]);
        let part = |i: int| workspace_entries(all, i);
        let (a, x) = listed_items_are_of_parts(all.len(), part, k);
        let inner = |i: int| tab_entries(all, a, i);
        let (b, y) = listed_items_are_of_parts(all[a].tabs@.len(), inner, x);
        let inmost = |i: int| pane_entries(all, a, b, i);
        let (c, z) = listed_items_are_of_parts(all[a].tabs@[b].panes@.len(), inmost, y);
        assert(entries[k]@ == local_entry(all, a, b, c));
        assert(false);
    }
    let at = k - local.len();
    assert(entries[k]@ == remote_entry(rows[at]));
    rows_show_what_is_stored(rows, app.remote_agents@, at);
    assert(rows[at].host_key == source@);
    let shown = rows[at].presentation;
    assert(remote_view_id(source@, shown.workspace_id) =~= source@ + seq!['\u{1f}']
        + shown.workspace_id);
    assert(remote_view_id(source@, shown.tab_id) =~= source@ + seq!['\u{1f}'] + shown.tab_id);
    assert(remote_view_id(source@, shown.pane_id) =~= source@ + seq!['\u{1f}'] + shown.pane_id);
}

/// Before a view is applied the panel has a row for every agent that is stored of a watched host.
pub proof fn stored_agents_are_listed(
    app: AppState,
    entries: Seq<AgentPanelEntry>,
    key: Seq<char>,
    pane: Seq<char>,
)
    requires
        unfiltered_entries(app, entries),
        keyed_by_pane(app.remote_agents@),
        app.remote_agents@.contains_key(key),
        app.remote_agents@[key].agents.contains_key(pane),
    ensures
        exists|k: int|
            0 <= k < entries.len() && ((#[trigger] entries[k]).target
                matches AgentPanelTarget::Remote { source, pane_id } && source@ == key && pane_id@
                == pane),
{
    let hosts = app.remote_agents@;
    let rows = lemma_rows_listed(app, entries);
    let local = local_entries(app.workspaces@);
    stored_agents_have_one_row(rows, hosts, key, pane);
    let i = choose|i: int|
        0 <= i < rows.len() && (#[trigger] rows[i]).host_key == key
            && rows[i].presentation.pane_id == pane && rows[i].presentation
            == hosts[key].agents[pane].presentation && rows[i].state_change_seq
            == hosts[key].agents[pane].state_change_seq && rows[i].host_label == hosts[key].label
            && rows[i].host_order == hosts[key].order && rows[i].online == hosts[key].online;
    let k = local.len() + i;
    assert(entries[k]@ == remote_entry(rows[i]));
}

/// Before a view is applied the rows of remote agents stand by the places of their hosts, and those
/// of one host by the places of their workspaces, tabs and panes.
pub proof fn remote_agents_are_listed_in_order(
    app: AppState,
    entries: Seq<AgentPanelEntry>,
    k: int,
    l: int,
    source: String,
    pane_id: String,
    other: String,
    other_pane: String,
)
    requires
        unfiltered_entries(app, entries),
        0 <= k < l < entries.len(),
        entries[k].target == (AgentPanelTarget::Remote { source, pane_id }),
        entries[l].target == (AgentPanelTarget::Remote { source: other, pane_id: other_pane }),
    ensures
        ({
            let hosts = app.remote_agents@;
            let a = hosts[source@].agents[pane_id@].presentation.display_order;
            let b = hosts[other@].agents[other_pane@].presentation.display_order;
            &&& hosts[source@].order <= hosts[other@].order
            &&& source@ == other@ ==> a.0 <= b.0 && (a.0 == b.0 ==> a.1 <= b.1) && (a.0 == b.0
                && a.1 == b.1 ==> a.2 <= b.2) && pane_id@ != other_pane@
        }),
{
    let hosts = app.remote_agents@;
    let rows = lemma_rows_listed(app, entries);
    let local = local_entries(app.workspaces@);
    let all = app.workspaces@;
    if k < local.len() {
        assert(entries[k]@ == local[k]);
        let part = |i: int| workspace_entries(all, i);
        let (a, x) = listed_items_are_of_parts(all.len(), part, k);
        let inner = |i: int| tab_entries(all, a, i);
        let (b, y) = listed_items_are_of_parts(all[a].tabs@.len(), inner, x);
        let inmost = |i: int| pane_entries(all, a, b, i);
        let (c, z) = listed_items_are_of_parts(all[a].tabs@[b].panes@.len(), inmost, y);
        assert(entries[k]@ == local_entry(all, a, b, c));
        assert(false);
    }
    let i = k - local.len();
    let j = l - local.len();
    assert(entries[k]@ == remote_entry(rows[i]));
    assert(entries[l]@ == remote_entry(rows[j]));
    rows_show_what_is_stored(rows, hosts, i);
    rows_show_what_is_stored(rows, hosts, j);
    rows_go_by_host_workspace_tab_and_pane(rows, hosts, i, j);
    text_less_asymmetric(pane_id@, other_pane@);
    if source@ == other@ && pane_id@ == other_pane@ {
        assert(rows[i] == rows[j]);
    }
}

} // verus!
