//! What the snapshot of a session reports of its state.

use vstd::prelude::*;
use vstd::string::*;

use crate::detect::{AgentLabel, AgentState};
use crate::flatten::{
    flattened, items_are_listed_by_parts, items_of_parts_are_listed, listed_items_are_of_parts,
};
use crate::remote_agents::fleet::{accepted_snapshot, fleet_fault, FleetSessionSnapshot};
use crate::remote_agents::fleet_laws::{accepted_panes_differ, agents_keep_their_own_texts};
use crate::remote_agents::host::{key_session, key_target, UpdateModel};
use crate::remote_agents::panel_laws::{
    reports_replace_the_agents, rows_go_by_host_workspace_tab_and_pane, rows_show_what_is_stored,
    stored_agents_have_one_row,
};
use crate::remote_agents::presentation::option_text;
use crate::remote_agents::registry::{is_panel, keyed_by_pane, updated_host, Hosts, PanelModel};
use crate::remote_agents::registry_laws::panes_differ;
use crate::schema::session::SessionSnapshot;
use crate::schema::AgentStatus;
use crate::session::{
    agent_model, agent_models_of, focused_pane, is_shown, layout_model, layout_models_of,
    pane_agent_models, pane_model, pane_models, pane_models_of, remote_agent_model,
    remote_agent_models, reports, tab_model, tab_models, tab_models_of, workspace_agent_models,
    workspace_model, workspace_models, workspace_pane_models,
};
use crate::state::{pane_id_text, pane_total, panes_in, tab_id_text, AppState, PaneAgent, Workspace};
use crate::text::decimal;

verus! {

/// The status under which an agent is reported.
pub proof fn reported_status_follows_the_state(
    workspace: Workspace,
    tab_idx: int,
    pane_idx: int,
    agent: PaneAgent,
    shown: bool,
)
    ensures
        ({
            let status = agent_model(
                workspace,
                tab_idx,
                pane_idx,
                agent,
                shown,
            ).agent_status;
            &&& agent.state == AgentState::Working ==> status == AgentStatus::Working
            &&& agent.state == AgentState::Blocked ==> status == AgentStatus::Blocked
            &&& agent.state == AgentState::Unknown ==> status == AgentStatus::Unknown
            &&& agent.state == AgentState::Idle && agent.seen ==> status == AgentStatus::Idle
            &&& agent.state == AgentState::Idle && !agent.seen ==> status == AgentStatus::Done
            &&& workspace.tabs@[tab_idx].panes@[pane_idx].agent == Some(agent) ==> pane_model(
                workspace,
                tab_idx,
                pane_idx,
                shown,
            ).agent_status == status
        }),
{
}

/// The record of a workspace is its own: its identifiers and labels, its number counted from one,
/// whether it is the one shown, how many tabs it has and which one it shows, and what is known of
/// its agents.
pub proof fn workspace_records_are_their_own(workspace: Workspace, ws_idx: int, shown: bool)
    requires
        0 <= ws_idx < usize::MAX,
    ensures
        ({
            let record = workspace_model(workspace, ws_idx, shown);
            let at = workspace.active_tab as int;
            &&& record.workspace_id == workspace.id@
            &&& record.number == ws_idx + 1
            &&& record.label == workspace.label@
            &&& record.focused == shown
            &&& workspace.tabs@.len() <= usize::MAX ==> record.tab_count == workspace.tabs@.len()
            &&& panes_in(workspace.tabs@, workspace.tabs@.len()) <= usize::MAX
                ==> record.pane_count == panes_in(workspace.tabs@, workspace.tabs@.len())
            &&& at < workspace.tabs@.len() ==> record.active_tab_id == tab_id_text(
                workspace.id@,
                workspace.tabs@[at].number as nat,
            )
            &&& at >= workspace.tabs@.len() ==> record.active_tab_id == Seq::<char>::empty()
            &&& record.agent_status == workspace.agent_status
            &&& record.tokens == workspace.tokens@
            &&& workspace.worktree is None ==> record.worktree is None
            &&& workspace.worktree matches Some(text) ==> record.worktree == Some(text@)
        }),
{
}

/// The panes of a workspace are those of its tabs, each counted once.
pub proof fn panes_are_counted_by_tab(workspace: Workspace, n: nat)
    requires
        n < workspace.tabs@.len(),
    ensures
        panes_in(workspace.tabs@, 0) == 0,
        panes_in(workspace.tabs@, n + 1) == panes_in(workspace.tabs@, n)
            + workspace.tabs@[n as int].panes@.len(),
        panes_in(workspace.tabs@, workspace.tabs@.len()) <= usize::MAX ==> pane_total(workspace)
            == panes_in(workspace.tabs@, workspace.tabs@.len()),
{
    assert((n + 1 - 1) as nat == n);
}

/// The record of a tab is its own. A tab without a name of its own is labelled by its number.
pub proof fn tab_records_are_their_own(workspace: Workspace, tab_idx: int, shown: bool)
    requires
        0 <= tab_idx < workspace.tabs@.len(),
    ensures
        ({
            let record = tab_model(workspace, tab_idx, shown);
            let tab = workspace.tabs@[tab_idx];
            &&& record.tab_id == tab_id_text(workspace.id@, tab.number as nat)
            &&& record.workspace_id == workspace.id@
            &&& record.number == tab.number
            &&& tab.custom_name matches Some(name) ==> record.label == name@ && record.custom_label
            &&& tab.custom_name is None ==> record.label == decimal(tab.number as nat)
                && !record.custom_label
            &&& record.focused <==> shown && workspace.active_tab == tab_idx
            &&& tab.panes@.len() <= usize::MAX ==> record.pane_count == tab.panes@.len()
            &&& record.agent_status == tab.agent_status
        }),
{
}

/// The layout of a tab names its panes in their order.
pub proof fn layouts_name_their_panes(workspace: Workspace, tab_idx: int, i: int)
    requires
        0 <= tab_idx < workspace.tabs@.len(),
    ensures
        ({
            let tab = workspace.tabs@[tab_idx];
            let layout = layout_model(workspace, tab);
            &&& layout.workspace_id == workspace.id@
            &&& layout.tab_id == tab_id_text(workspace.id@, tab.number as nat)
            &&& layout.pane_ids.len() == tab.panes@.len()
            &&& 0 <= i < tab.panes@.len() ==> layout.pane_ids[i] == pane_id_text(
                workspace.id@,
                tab.panes@[i].number as nat,
            )
        }),
{
}

/// The record of a pane is its own: where it is, whether it has the focus, its titles and
/// directories, and what is known of the agent in it; of a pane without an agent nothing is.
pub proof fn pane_records_are_their_own(
    workspace: Workspace,
    tab_idx: int,
    pane_idx: int,
    shown: bool,
)
    requires
        0 <= tab_idx < workspace.tabs@.len(),
        0 <= pane_idx < workspace.tabs@[tab_idx].panes@.len(),
    ensures
        ({
            let record = pane_model(workspace, tab_idx, pane_idx, shown);
            let tab = workspace.tabs@[tab_idx];
            let pane = tab.panes@[pane_idx];
            &&& record.pane_id == pane_id_text(workspace.id@, pane.number as nat)
            &&& record.number == pane.number
            &&& record.terminal_id == pane.terminal_id@
            &&& record.workspace_id == workspace.id@
            &&& record.tab_id == tab_id_text(workspace.id@, tab.number as nat)
            &&& record.focused <==> shown && workspace.active_tab == tab_idx && tab.focused_pane
                == pane_idx
            &&& record.cwd == option_text(pane.cwd)
            &&& record.foreground_cwd == option_text(pane.foreground_cwd)
            &&& record.label == option_text(pane.label)
            &&& record.title == option_text(pane.title)
            &&& record.terminal_title == option_text(pane.terminal_title)
            &&& record.terminal_title_stripped == option_text(pane.terminal_title_stripped)
            &&& record.scroll == option_text(pane.scroll)
            &&& record.revision == pane.revision
            &&& pane.agent matches Some(agent) ==> record.agent == option_text(agent.kind_label)
                && record.display_agent == option_text(agent.label) && record.state_labels
                == agent.state_labels@ && record.tokens == agent.tokens@ && record.agent_session
                == option_text(agent.session)
            &&& pane.agent is None ==> record.agent is None && record.display_agent is None
                && record.agent_session is None && record.agent_status == AgentStatus::Unknown
                && record.state_labels == Map::<Seq<char>, Seq<char>>::empty() && record.tokens
                == Map::<Seq<char>, Seq<char>>::empty()
        }),
{
}

/// The record of an agent is its own, with where its pane is and what is known of the pane.
pub proof fn agent_records_are_their_own(
    workspace: Workspace,
    tab_idx: int,
    pane_idx: int,
    agent: PaneAgent,
    shown: bool,
)
    requires
        0 <= tab_idx < workspace.tabs@.len(),
        0 <= pane_idx < workspace.tabs@[tab_idx].panes@.len(),
    ensures
        ({
            let record = agent_model(workspace, tab_idx, pane_idx, agent, shown);
            let tab = workspace.tabs@[tab_idx];
            let pane = tab.panes@[pane_idx];
            &&& record.terminal_id == pane.terminal_id@
            &&& record.name == option_text(agent.name)
            &&& record.agent == option_text(agent.kind_label)
            &&& record.title == option_text(pane.title)
            &&& record.terminal_title == option_text(pane.terminal_title)
            &&& record.terminal_title_stripped == option_text(pane.terminal_title_stripped)
            &&& record.display_agent == option_text(agent.label)
            &&& record.screen_detection_skipped == agent.screen_detection_skipped
            &&& record.state_labels == agent.state_labels@
            &&& record.tokens == agent.tokens@
            &&& record.agent_session == option_text(agent.session)
            &&& record.workspace_id == workspace.id@
            &&& record.tab_id == tab_id_text(workspace.id@, tab.number as nat)
            &&& record.pane_id == pane_id_text(workspace.id@, pane.number as nat)
            &&& record.focused <==> shown && workspace.active_tab == tab_idx && tab.focused_pane
                == pane_idx
            &&& record.launch_pending == agent.launch_pending
            &&& record.interactive_ready == agent.interactive_ready
            &&& agent.state_change_seq matches Some(seq) ==> record.state_change_seq == seq
            &&& agent.state_change_seq is None ==> record.state_change_seq == 0
            &&& record.cwd == option_text(pane.cwd)
            &&& record.foreground_cwd == option_text(pane.foreground_cwd)
            &&& record.revision == pane.revision
        }),
{
}

/// A session names the version and the protocol of its build, and what has the focus: the
/// workspace at the shown position, the tab that it shows, and the pane with the focus there.
pub proof fn sessions_name_version_and_focus(snapshot: SessionSnapshot, state: AppState)
    requires
        reports(snapshot, state),
    ensures
        snapshot.version@ == "0.8.0"@,
        snapshot.protocol == 20,
        state.active is None ==> snapshot.focused_workspace_id is None
            && snapshot.focused_tab_id is None && snapshot.focused_pane_id is None,
        state.active matches Some(idx) ==> snapshot.focused_workspace_id is Some,
        state.active matches Some(idx) ==> (idx >= state.workspaces@.len()
            ==> snapshot.focused_workspace_id->0@ == decimal(idx as nat)
            && snapshot.focused_tab_id is None && snapshot.focused_pane_id is None),
        state.active matches Some(idx) ==> (idx < state.workspaces@.len() ==> {
            let workspace = state.workspaces@[idx as int];
            let at = workspace.active_tab as int;
            let tab = workspace.tabs@[at];
            &&& snapshot.focused_workspace_id->0@ == workspace.id@
            &&& snapshot.focused_tab_id is Some <==> at < workspace.tabs@.len()
            &&& at < workspace.tabs@.len() ==> snapshot.focused_tab_id->0@ == tab_id_text(
                workspace.id@,
                tab.number as nat,
            )
            &&& snapshot.focused_pane_id is Some <==> at < workspace.tabs@.len()
                && tab.focused_pane < tab.panes@.len()
            &&& snapshot.focused_pane_id is Some ==> snapshot.focused_pane_id->0@ == pane_id_text(
                workspace.id@,
                tab.panes@[tab.focused_pane as int].number as nat,
            )
        }),
{
}

/// A session reports each workspace once, in its place, and marks the shown one.
pub proof fn sessions_report_each_workspace(snapshot: SessionSnapshot, state: AppState, w: int)
    requires
        reports(snapshot, state),
    ensures
        snapshot.workspaces@.len() == state.workspaces@.len(),
        0 <= w < state.workspaces@.len() ==> snapshot.workspaces@[w]@ == workspace_model(
            state.workspaces@[w],
            w,
            state.active == Some(w as usize) && w <= usize::MAX,
        ),
{
    assert(snapshot@.workspaces == workspace_models(state.workspaces@, state.active));
    if 0 <= w < state.workspaces@.len() {
        assert(snapshot@.workspaces[w] == snapshot.workspaces@[w]@);
    }
}

/// A session reports each tab of each workspace and its layout, tabs of earlier workspaces before
/// those of later ones, and tabs of one workspace in their order.
pub proof fn sessions_report_each_tab(
    snapshot: SessionSnapshot,
    state: AppState,
    w: int,
    t: int,
    v: int,
    u: int,
)
    requires
        reports(snapshot, state),
        0 <= w <= v < state.workspaces@.len(),
        0 <= t < state.workspaces@[w].tabs@.len(),
        0 <= u < state.workspaces@[v].tabs@.len(),
        w < v || t < u,
    ensures
        snapshot.tabs@.len() == snapshot.layouts@.len(),
        exists|k: int, l: int|
            0 <= k < l < snapshot.tabs@.len() && (#[trigger] snapshot.tabs@[k])@ == tab_model(
                state.workspaces@[w],
                t,
                is_shown(state.active, w),
            ) && (#[trigger] snapshot.tabs@[l])@ == tab_model(
                state.workspaces@[v],
                u,
                is_shown(state.active, v),
            ) && snapshot.layouts@[k]@ == layout_model(
                state.workspaces@[w],
                state.workspaces@[w].tabs@[t],
            ) && snapshot.layouts@[l]@ == layout_model(
                state.workspaces@[v],
                state.workspaces@[v].tabs@[u],
            ),
{
    let all = state.workspaces@;
    let active = state.active;
    let part = |i: int| tab_models_of(all[i], is_shown(active, i));
    let layouts = |i: int| layout_models_of(all[i]);
    let n = all.len();
    let k = flattened(w as nat, part).len() + t;
    let l = flattened(v as nat, part).len() + u;
    lemma_tabs_match_layouts(all, active, w as nat);
    lemma_tabs_match_layouts(all, active, v as nat);
    lemma_tabs_match_layouts(all, active, n);
    items_of_parts_are_listed(n, part, w, t);
    items_of_parts_are_listed(n, part, v, u);
    items_of_parts_are_listed(n, layouts, w, t);
    items_of_parts_are_listed(n, layouts, v, u);
    items_are_listed_by_parts(n, part, w, t, v, u);
    assert(snapshot@.tabs == flattened(n, part));
    assert(snapshot@.layouts == flattened(n, layouts));
    assert(snapshot@.tabs[k] == snapshot.tabs@[k]@);
    assert(snapshot@.tabs[l] == snapshot.tabs@[l]@);
    assert(snapshot@.layouts[k] == snapshot.layouts@[k]@);
    assert(snapshot@.layouts[l] == snapshot.layouts@[l]@);
}

proof fn lemma_tabs_match_layouts(all: Seq<Workspace>, active: Option<usize>, n: nat)
    requires
        n <= all.len(),
    ensures
        flattened(n, |i: int| tab_models_of(all[i], is_shown(active, i))).len() == flattened(
            n,
            |i: int| layout_models_of(all[i]),
        ).len(),
    decreases n,
{
    if n > 0 {
        lemma_tabs_match_layouts(all, active, (n - 1) as nat);
    }
}

/// Every tab and every layout that a session reports is that of a tab of one of its workspaces.
pub proof fn reported_tabs_are_there(snapshot: SessionSnapshot, state: AppState, k: int)
    requires
        reports(snapshot, state),
        0 <= k < snapshot.tabs@.len(),
    ensures
        snapshot.layouts@.len() == snapshot.tabs@.len(),
        exists|w: int, t: int|
            #![trigger state.workspaces@[w].tabs@[t]]
            0 <= w < state.workspaces@.len() && 0 <= t < state.workspaces@[w].tabs@.len()
                && snapshot.tabs@[k]@ == tab_model(
                state.workspaces@[w],
                t,
                is_shown(state.active, w),
            ) && snapshot.layouts@[k]@ == layout_model(
                state.workspaces@[w],
                state.workspaces@[w].tabs@[t],
            ),
{
    let all = state.workspaces@;
    let active = state.active;
    let part = |i: int| tab_models_of(all[i], is_shown(active, i));
    let layouts = |i: int| layout_models_of(all[i]);
    assert(snapshot@.tabs == flattened(all.len(), part));
    assert(snapshot@.layouts == flattened(all.len(), layouts));
    let (w, t) = listed_items_are_of_parts(all.len(), part, k);
    lemma_tabs_match_layouts(all, active, w as nat);
    lemma_tabs_match_layouts(all, active, all.len());
    items_of_parts_are_listed(all.len(), layouts, w, t);
    assert(snapshot@.tabs[k] == snapshot.tabs@[k]@);
    assert(snapshot@.layouts[k] == snapshot.layouts@[k]@);
    assert(state.workspaces@[w].tabs@[t] == all[w].tabs@[t]);
}

/// A session reports each pane of each tab, in the order of the workspaces, their tabs and the
/// panes in them.
pub proof fn sessions_report_each_pane(
    snapshot: SessionSnapshot,
    state: AppState,
    a: (int, int, int),
    b: (int, int, int),
)
    requires
        reports(snapshot, state),
        0 <= a.0 <= b.0 < state.workspaces@.len(),
        0 <= a.1 < state.workspaces@[a.0].tabs@.len(),
        0 <= a.2 < state.workspaces@[a.0].tabs@[a.1].panes@.len(),
        0 <= b.1 < state.workspaces@[b.0].tabs@.len(),
        0 <= b.2 < state.workspaces@[b.0].tabs@[b.1].panes@.len(),
        a.0 < b.0 || a.1 < b.1 || (a.1 == b.1 && a.2 < b.2),
    ensures
        exists|k: int, l: int|
            0 <= k < l < snapshot.panes@.len() && (#[trigger] snapshot.panes@[k])@ == pane_model(
                state.workspaces@[a.0],
                a.1,
                a.2,
                is_shown(state.active, a.0),
            ) && (#[trigger] snapshot.panes@[l])@ == pane_model(
                state.workspaces@[b.0],
                b.1,
                b.2,
                is_shown(state.active, b.0),
            ),
{
    let all = state.workspaces@;
    let active = state.active;
    let part = |i: int| workspace_pane_models(all[i], is_shown(active, i));
    let x = lemma_pane_in_workspace(all[a.0], is_shown(active, a.0), a.1, a.2);
    let y = lemma_pane_in_workspace(all[b.0], is_shown(active, b.0), b.1, b.2);
    if a.0 == b.0 {
        let inner = |i: int| pane_models_of(all[a.0], i, is_shown(active, a.0));
        items_are_listed_by_parts(all[a.0].tabs@.len(), inner, a.1, a.2, b.1, b.2);
    }
    items_of_parts_are_listed(all.len(), part, a.0, x);
    items_of_parts_are_listed(all.len(), part, b.0, y);
    items_are_listed_by_parts(all.len(), part, a.0, x, b.0, y);
    let k = flattened(a.0 as nat, part).len() + x;
    let l = flattened(b.0 as nat, part).len() + y;
    assert(snapshot@.panes == flattened(all.len(), part));
    assert(snapshot@.panes[k] == snapshot.panes@[k]@);
    assert(snapshot@.panes[l] == snapshot.panes@[l]@);
}

/// Where a pane stands among the panes of its workspace.
proof fn lemma_pane_in_workspace(workspace: Workspace, shown: bool, t: int, p: int) -> (at: int)
    requires
        0 <= t < workspace.tabs@.len(),
        0 <= p < workspace.tabs@[t].panes@.len(),
    ensures
        at == flattened(t as nat, |i: int| pane_models_of(workspace, i, shown)).len() + p,
        0 <= at < workspace_pane_models(workspace, shown).len(),
        workspace_pane_models(workspace, shown)[at] == pane_model(workspace, t, p, shown),
{
    let inner = |i: int| pane_models_of(workspace, i, shown);
    items_of_parts_are_listed(workspace.tabs@.len(), inner, t, p);
    flattened(t as nat, inner).len() + p
}

/// Every pane that a session reports is one of its panes.
pub proof fn reported_panes_are_there(snapshot: SessionSnapshot, state: AppState, k: int)
    requires
        reports(snapshot, state),
        0 <= k < snapshot.panes@.len(),
    ensures
        exists|w: int, t: int, p: int|
            #![trigger state.workspaces@[w].tabs@[t].panes@[p]]
            0 <= w < state.workspaces@.len() && 0 <= t < state.workspaces@[w].tabs@.len() && 0 <= p
                < state.workspaces@[w].tabs@[t].panes@.len() && snapshot.panes@[k]@ == pane_model(
                state.workspaces@[w],
                t,
                p,
                is_shown(state.active, w),
            ),
{
    let all = state.workspaces@;
    let active = state.active;
    let part = |i: int| workspace_pane_models(all[i], is_shown(active, i));
    assert(snapshot@.panes == flattened(all.len(), part));
    let (w, x) = listed_items_are_of_parts(all.len(), part, k);
    let shown = is_shown(active, w);
    let inner = |i: int| pane_models_of(all[w], i, shown);
    let (t, p) = listed_items_are_of_parts(all[w].tabs@.len(), inner, x);
    assert(snapshot@.panes[k] == snapshot.panes@[k]@);
    assert(state.workspaces@[w].tabs@[t].panes@[p] == all[w].tabs@[t].panes@[p]);
}

/// As many panes are reported as the tabs of all workspaces have.
pub proof fn reported_panes_are_counted(
    workspaces: Seq<Workspace>,
    active: Option<usize>,
    more: Workspace,
)
    ensures
        pane_models(Seq::empty(), active).len() == 0,
        pane_models(workspaces.push(more), active).len() == pane_models(workspaces, active).len()
            + panes_in(more.tabs@, more.tabs@.len()),
{
    let longer = workspaces.push(more);
    let n = workspaces.len();
    let part = |i: int| workspace_pane_models(longer[i], is_shown(active, i));
    let fewer = |i: int| workspace_pane_models(workspaces[i], is_shown(active, i));
    lemma_same_parts(n, part, fewer);
    assert((n + 1 - 1) as nat == n);
    lemma_panes_counted(more, is_shown(active, n as int), more.tabs@.len());
}

proof fn lemma_same_parts<T>(n: nat, a: spec_fn(int) -> Seq<T>, b: spec_fn(int) -> Seq<T>)
    requires
        forall|i: int| 0 <= i < n ==> #[trigger] a(i) == b(i),
    ensures
        flattened(n, a) == flattened(n, b),
    decreases n,
{
    if n > 0 {
        lemma_same_parts((n - 1) as nat, a, b);
        assert(a(n - 1) == b(n - 1));
    }
}

proof fn lemma_panes_counted(workspace: Workspace, shown: bool, n: nat)
    requires
        n <= workspace.tabs@.len(),
    ensures
        flattened(n, |i: int| pane_models_of(workspace, i, shown)).len() == panes_in(
            workspace.tabs@,
            n,
        ),
    decreases n,
{
    if n > 0 {
        lemma_panes_counted(workspace, shown, (n - 1) as nat);
    }
}

/// As many tabs are reported as all workspaces have.
pub proof fn reported_tabs_are_counted(
    workspaces: Seq<Workspace>,
    active: Option<usize>,
    more: Workspace,
)
    ensures
        tab_models(Seq::empty(), active).len() == 0,
        tab_models(workspaces.push(more), active).len() == tab_models(workspaces, active).len()
            + more.tabs@.len(),
{
    let longer = workspaces.push(more);
    let n = workspaces.len();
    let part = |i: int| tab_models_of(longer[i], is_shown(active, i));
    let fewer = |i: int| tab_models_of(workspaces[i], is_shown(active, i));
    lemma_same_parts(n, part, fewer);
    assert((n + 1 - 1) as nat == n);
}

/// Where the agent of a pane stands among the agents of its workspace.
proof fn lemma_agent_in_workspace(workspace: Workspace, shown: bool, t: int, p: int) -> (at: int)
    requires
        0 <= t < workspace.tabs@.len(),
        0 <= p < workspace.tabs@[t].panes@.len(),
        workspace.tabs@[t].panes@[p].agent is Some,
    ensures
        0 <= at - flattened(
            t as nat,
            |i: int| agent_models_of(workspace, i, shown),
        ).len() < agent_models_of(workspace, t, shown).len(),
        at - flattened(t as nat, |i: int| agent_models_of(workspace, i, shown)).len() == flattened(
            p as nat,
            |i: int| pane_agent_models(workspace, t, i, shown),
        ).len(),
        0 <= at < workspace_agent_models(workspace, shown).len(),
        workspace_agent_models(workspace, shown)[at] == agent_model(
            workspace,
            t,
            p,
            workspace.tabs@[t].panes@[p].agent->0,
            shown,
        ),
{
    let inner = |i: int| agent_models_of(workspace, i, shown);
    let inmost = |i: int| pane_agent_models(workspace, t, i, shown);
    items_of_parts_are_listed(workspace.tabs@[t].panes@.len(), inmost, p, 0);
    let x = flattened(p as nat, inmost).len() as int;
    items_of_parts_are_listed(workspace.tabs@.len(), inner, t, x);
    flattened(t as nat, inner).len() + x
}

/// A session reports the agent of each pane that has one, in the order of the workspaces, their
/// tabs and the panes in them.
pub proof fn sessions_report_each_agent(
    snapshot: SessionSnapshot,
    state: AppState,
    a: (int, int, int),
    b: (int, int, int),
)
    requires
        reports(snapshot, state),
        0 <= a.0 <= b.0 < state.workspaces@.len(),
        0 <= a.1 < state.workspaces@[a.0].tabs@.len(),
        0 <= a.2 < state.workspaces@[a.0].tabs@[a.1].panes@.len(),
        0 <= b.1 < state.workspaces@[b.0].tabs@.len(),
        0 <= b.2 < state.workspaces@[b.0].tabs@[b.1].panes@.len(),
        a.0 < b.0 || a.1 < b.1 || (a.1 == b.1 && a.2 < b.2),
        state.workspaces@[a.0].tabs@[a.1].panes@[a.2].agent is Some,
        state.workspaces@[b.0].tabs@[b.1].panes@[b.2].agent is Some,
    ensures
        exists|k: int, l: int|
            0 <= k < l < snapshot.agents@.len() && (#[trigger] snapshot.agents@[k])@ == agent_model(
                state.workspaces@[a.0],
                a.1,
                a.2,
                state.workspaces@[a.0].tabs@[a.1].panes@[a.2].agent->0,
                is_shown(state.active, a.0),
            ) && (#[trigger] snapshot.agents@[l])@ == agent_model(
                state.workspaces@[b.0],
                b.1,
                b.2,
                state.workspaces@[b.0].tabs@[b.1].panes@[b.2].agent->0,
                is_shown(state.active, b.0),
            ),
{
    let all = state.workspaces@;
    let active = state.active;
    let part = |i: int| workspace_agent_models(all[i], is_shown(active, i));
    let shown = is_shown(active, a.0);
    let x = lemma_agent_in_workspace(all[a.0], shown, a.1, a.2);
    let y = lemma_agent_in_workspace(all[b.0], is_shown(active, b.0), b.1, b.2);
    if a.0 == b.0 {
        let inner = |i: int| agent_models_of(all[a.0], i, shown);
        let from = x - flattened(a.1 as nat, inner).len();
        let to = y - flattened(b.1 as nat, inner).len();
        if a.1 == b.1 {
            let inmost = |i: int| pane_agent_models(all[a.0], a.1, i, shown);
            items_are_listed_by_parts(
                all[a.0].tabs@[a.1].panes@.len(),
                inmost,
                a.2,
                0,
                b.2,
                0,
            );
        }
        items_are_listed_by_parts(all[a.0].tabs@.len(), inner, a.1, from, b.1, to);
    }
    items_of_parts_are_listed(all.len(), part, a.0, x);
    items_of_parts_are_listed(all.len(), part, b.0, y);
    items_are_listed_by_parts(all.len(), part, a.0, x, b.0, y);
    let k = flattened(a.0 as nat, part).len() + x;
    let l = flattened(b.0 as nat, part).len() + y;
    assert(snapshot@.agents == flattened(all.len(), part));
    assert(snapshot@.agents[k] == snapshot.agents@[k]@);
    assert(snapshot@.agents[l] == snapshot.agents@[l]@);
}

/// Every agent that a session reports for its own panes is that of one of them.
pub proof fn reported_agents_are_there(snapshot: SessionSnapshot, state: AppState, k: int)
    requires
        reports(snapshot, state),
        0 <= k < snapshot.agents@.len(),
    ensures
        exists|w: int, t: int, p: int|
            #![trigger state.workspaces@[w].tabs@[t].panes@[p]]
            0 <= w < state.workspaces@.len() && 0 <= t < state.workspaces@[w].tabs@.len() && 0 <= p
                < state.workspaces@[w].tabs@[t].panes@.len()
                && state.workspaces@[w].tabs@[t].panes@[p].agent is Some && snapshot.agents@[k]@
                == agent_model(
                state.workspaces@[w],
                t,
                p,
                state.workspaces@[w].tabs@[t].panes@[p].agent->0,
                is_shown(state.active, w),
            ),
{
    let all = state.workspaces@;
    let active = state.active;
    let part = |i: int| workspace_agent_models(all[i], is_shown(active, i));
    assert(snapshot@.agents == flattened(all.len(), part));
    let (w, x) = listed_items_are_of_parts(all.len(), part, k);
    let shown = is_shown(active, w);
    let inner = |i: int| agent_models_of(all[w], i, shown);
    let (t, y) = listed_items_are_of_parts(all[w].tabs@.len(), inner, x);
    let inmost = |i: int| pane_agent_models(all[w], t, i, shown);
    let (p, z) = listed_items_are_of_parts(all[w].tabs@[t].panes@.len(), inmost, y);
    assert(snapshot@.agents[k] == snapshot.agents@[k]@);
    assert(state.workspaces@[w].tabs@[t].panes@[p] == all[w].tabs@[t].panes@[p]);
}

/// No more agents are reported than there are panes.
pub proof fn fewer_agents_than_panes(snapshot: SessionSnapshot, state: AppState)
    requires
        reports(snapshot, state),
    ensures
        snapshot.agents@.len() <= snapshot.panes@.len(),
{
    let all = state.workspaces@;
    lemma_fewer_agents(all, state.active, all.len());
}

proof fn lemma_fewer_agents(all: Seq<Workspace>, active: Option<usize>, n: nat)
    requires
        n <= all.len(),
    ensures
        flattened(n, |i: int| workspace_agent_models(all[i], is_shown(active, i))).len()
            <= flattened(n, |i: int| workspace_pane_models(all[i], is_shown(active, i))).len(),
    decreases n,
{
    if n > 0 {
        lemma_fewer_agents(all, active, (n - 1) as nat);
        let w = n - 1;
        lemma_fewer_in_workspace(all[w], is_shown(active, w), all[w].tabs@.len());
    }
}

proof fn lemma_fewer_in_workspace(workspace: Workspace, shown: bool, n: nat)
    requires
        n <= workspace.tabs@.len(),
    ensures
        flattened(n, |i: int| agent_models_of(workspace, i, shown)).len() <= flattened(
            n,
            |i: int| pane_models_of(workspace, i, shown),
        ).len(),
    decreases n,
{
    if n > 0 {
        lemma_fewer_in_workspace(workspace, shown, (n - 1) as nat);
        lemma_fewer_in_tab(workspace, shown, n - 1, workspace.tabs@[n - 1].panes@.len());
    }
}

proof fn lemma_fewer_in_tab(workspace: Workspace, shown: bool, t: int, n: nat)
    ensures
        flattened(n, |i: int| pane_agent_models(workspace, t, i, shown)).len() <= n,
    decreases n,
{
    if n > 0 {
        lemma_fewer_in_tab(workspace, shown, t, (n - 1) as nat);
    }
}

/// The rows of the panel that a session reports.
proof fn lemma_rows_reported(snapshot: SessionSnapshot, state: AppState) -> (rows: Seq<PanelModel>)
    requires
        reports(snapshot, state),
    ensures
        is_panel(rows, state.remote_agents@),
        rows.len() == snapshot.remote_agents@.len(),
        forall|k: int|
            0 <= k < rows.len() ==> (#[trigger] snapshot.remote_agents@[k])@ == remote_agent_model(
                rows[k],
            ),
{
    let hosts = state.remote_agents@;
    let model = snapshot@;
    let rows = choose|rows: Seq<PanelModel>| #[trigger]
        is_panel(rows, hosts) && model.remote_agents == remote_agent_models(rows);
    assert(is_panel(rows, hosts) && model.remote_agents == remote_agent_models(rows));
    assert(model.remote_agents.len() == snapshot.remote_agents@.len());
    assert(remote_agent_models(rows).len() == rows.len());
    assert forall|k: int| 0 <= k < rows.len() implies (#[trigger] snapshot.remote_agents@[k])@
        == remote_agent_model(rows[k]) by {
        assert(model.remote_agents[k] == snapshot.remote_agents@[k]@);
        assert(remote_agent_models(rows)[k] == remote_agent_model(rows[k]));
    }
    rows
}

/// What a session reports of a remote agent, record by record, is what is stored of one and the
/// same agent: its identifiers, its labels and titles, its kind, its metadata and its last status
/// change, each in its own place, with the source that it was seen on.
pub proof fn remote_records_are_their_own(snapshot: SessionSnapshot, state: AppState, k: int)
    requires
        reports(snapshot, state),
        0 <= k < snapshot.remote_agents@.len(),
    ensures
        exists|key: Seq<char>, pane: Seq<char>|
            #![trigger state.remote_agents@[key].agents.contains_key(pane)]
            {
                let hosts = state.remote_agents@;
                let record = snapshot.remote_agents@[k];
                let stored = hosts[key].agents[pane];
                &&& hosts.contains_key(key)
                &&& hosts[key].agents.contains_key(pane)
                &&& record.source_target@ == key_target(key)
                &&& record.source_session@ == key_session(key)
                &&& record.source_label@ == hosts[key].label
                &&& record.source_online == hosts[key].online
                &&& record.workspace_id@ == stored.presentation.workspace_id
                &&& record.tab_id@ == stored.presentation.tab_id
                &&& record.pane_id@ == stored.presentation.pane_id
                &&& record.pane_id@ == pane
                &&& record.workspace_label@ == stored.presentation.workspace_label
                &&& option_text(record.tab_label) == stored.presentation.tab_label
                &&& option_text(record.title) == stored.presentation.pane_label
                &&& option_text(record.terminal_title) == stored.presentation.terminal_title
                &&& option_text(record.terminal_title_stripped)
                    == stored.presentation.terminal_title_stripped
                &&& option_text(record.agent) == stored.presentation.agent_kind_label
                &&& record.display_agent@ == stored.presentation.agent_label
                &&& record.state_labels@ == stored.presentation.state_labels
                &&& record.tokens@ == stored.presentation.tokens
                &&& record.state_change_seq == stored.state_change_seq
                &&& record.agent_status == AgentStatus::Working <==> stored.presentation.state
                    == AgentState::Working
                &&& record.agent_status == AgentStatus::Blocked <==> stored.presentation.state
                    == AgentState::Blocked
                &&& record.agent_status == AgentStatus::Unknown <==> stored.presentation.state
                    == AgentState::Unknown
                &&& record.agent_status == AgentStatus::Idle <==> stored.presentation.state
                    == AgentState::Idle && stored.presentation.seen
                &&& record.agent_status == AgentStatus::Done <==> stored.presentation.state
                    == AgentState::Idle && !stored.presentation.seen
            },
{
    let hosts = state.remote_agents@;
    let rows = lemma_rows_reported(snapshot, state);
    rows_show_what_is_stored(rows, hosts, k);
    let key = rows[k].host_key;
    let pane = rows[k].presentation.pane_id;
    assert(hosts[key].agents.contains_key(pane));
}

/// A session reports every agent that is stored of a watched host, under the identifiers that are
/// stored of it and the source that it was seen on.
pub proof fn sessions_report_each_remote_agent(
    snapshot: SessionSnapshot,
    state: AppState,
    key: Seq<char>,
    pane: Seq<char>,
)
    requires
        reports(snapshot, state),
        keyed_by_pane(state.remote_agents@),
        state.remote_agents@.contains_key(key),
        state.remote_agents@[key].agents.contains_key(pane),
    ensures
        ({
            let stored = state.remote_agents@[key].agents[pane].presentation;
            exists|k: int|
                0 <= k < snapshot.remote_agents@.len() && (
                #[trigger] snapshot.remote_agents@[k]).source_target@ == key_target(key)
                    && snapshot.remote_agents@[k].source_session@ == key_session(key)
                    && snapshot.remote_agents@[k].source_online
                    == state.remote_agents@[key].online
                    && snapshot.remote_agents@[k].workspace_id@ == stored.workspace_id
                    && snapshot.remote_agents@[k].tab_id@ == stored.tab_id
                    && snapshot.remote_agents@[k].pane_id@ == pane
                    && snapshot.remote_agents@[k].workspace_label@ == stored.workspace_label
                    && snapshot.remote_agents@[k].display_agent@ == stored.agent_label
        }),
{
    let hosts = state.remote_agents@;
    let rows = lemma_rows_reported(snapshot, state);
    stored_agents_have_one_row(rows, hosts, key, pane);
    let k = choose|k: int|
        0 <= k < rows.len() && (#[trigger] rows[k]).host_key == key
            && rows[k].presentation.pane_id == pane && rows[k].presentation
            == hosts[key].agents[pane].presentation && rows[k].state_change_seq
            == hosts[key].agents[pane].state_change_seq && rows[k].host_label == hosts[key].label
            && rows[k].host_order == hosts[key].order && rows[k].online == hosts[key].online;
    assert(snapshot.remote_agents@[k]@ == remote_agent_model(rows[k]));
}

/// The records of remote agents stand in the order of the panel: by the places of their hosts, and
/// of one host by the places of their workspaces, tabs and panes.
pub proof fn remote_records_stand_in_panel_order(
    snapshot: SessionSnapshot,
    state: AppState,
    k: int,
    l: int,
)
    requires
        reports(snapshot, state),
        0 <= k < l < snapshot.remote_agents@.len(),
    ensures
        exists|a: (Seq<char>, Seq<char>), b: (Seq<char>, Seq<char>)|
            #![trigger
                state.remote_agents@[a.0].agents.contains_key(a.1),
                state.remote_agents@[b.0].agents.contains_key(b.1)]
            {
                let hosts = state.remote_agents@;
                let x = hosts[a.0].agents[a.1].presentation.display_order;
                let y = hosts[b.0].agents[b.1].presentation.display_order;
                &&& hosts.contains_key(a.0)
                &&& hosts.contains_key(b.0)
                &&& hosts[a.0].agents.contains_key(a.1)
                &&& hosts[b.0].agents.contains_key(b.1)
                &&& snapshot.remote_agents@[k].pane_id@ == a.1
                &&& snapshot.remote_agents@[k].source_target@ == key_target(a.0)
                &&& snapshot.remote_agents@[k].source_session@ == key_session(a.0)
                &&& snapshot.remote_agents@[l].pane_id@ == b.1
                &&& snapshot.remote_agents@[l].source_target@ == key_target(b.0)
                &&& snapshot.remote_agents@[l].source_session@ == key_session(b.0)
                &&& hosts[a.0].order <= hosts[b.0].order
                &&& a.0 == b.0 ==> x.0 <= y.0 && (x.0 == y.0 ==> x.1 <= y.1) && (x.0 == y.0 && x.1
                    == y.1 ==> x.2 <= y.2)
            },
{
    let hosts = state.remote_agents@;
    let rows = lemma_rows_reported(snapshot, state);
    rows_show_what_is_stored(rows, hosts, k);
    rows_show_what_is_stored(rows, hosts, l);
    rows_go_by_host_workspace_tab_and_pane(rows, hosts, k, l);
    let a = (rows[k].host_key, rows[k].presentation.pane_id);
    let b = (rows[l].host_key, rows[l].presentation.pane_id);
    assert(hosts[a.0].agents.contains_key(a.1));
    assert(hosts[b.0].agents.contains_key(b.1));
}

/// What a remote session reports of its agents, the local one reports in turn: after an accepted
/// report of a watched host, the session has a record for each agent in it, under the workspace,
/// the tab and the pane that the remote gave, and online.
pub proof fn remote_reports_reach_the_session(
    snapshot: SessionSnapshot,
    state: AppState,
    hosts: Hosts,
    key: Seq<char>,
    remote: FleetSessionSnapshot,
    known: Seq<AgentLabel>,
    last: u64,
    i: int,
)
    requires
        reports(snapshot, state),
        keyed_by_pane(state.remote_agents@),
        hosts.contains_key(key),
        fleet_fault(remote) is None,
        state.remote_agents@ == hosts.insert(
            key,
            updated_host(
                hosts[key],
                UpdateModel::Snapshot(accepted_snapshot(remote, known)),
                last,
            ),
        ),
        0 <= i < remote.agents@.len(),
    ensures
        exists|k: int|
            0 <= k < snapshot.remote_agents@.len() && (
            #[trigger] snapshot.remote_agents@[k]).workspace_id@ == remote.agents@[i].workspace_id@
                && snapshot.remote_agents@[k].tab_id@ == remote.agents@[i].tab_id@
                && snapshot.remote_agents@[k].pane_id@ == remote.agents@[i].pane_id@
                && snapshot.remote_agents@[k].source_target@ == key_target(key)
                && snapshot.remote_agents@[k].source_session@ == key_session(key)
                && snapshot.remote_agents@[k].source_online,
{
    let accepted = accepted_snapshot(remote, known);
    assert(panes_differ(accepted.agents)) by {
        assert forall|a: int, b: int| 0 <= a < b < accepted.agents.len() implies (
        #[trigger] accepted.agents[a]).pane_id != (#[trigger] accepted.agents[b]).pane_id by {
            accepted_panes_differ(remote, known, a, b);
        }
    }
    let pane = remote.agents@[i].pane_id@;
    agents_keep_their_own_texts(remote, known, i);
    reports_replace_the_agents(hosts[key], accepted, last, pane);
    assert(accepted.agents[i].pane_id == pane);
    sessions_report_each_remote_agent(snapshot, state, key, pane);
}

} // verus!
