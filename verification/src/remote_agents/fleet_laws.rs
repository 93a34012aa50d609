//! What holds of every session that is accepted.

use vstd::prelude::*;

use crate::detect::{
    agent_for_label, first_known_label_names_the_kind, unknown_labels_name_no_kind, AgentLabel,
    AgentState,
};
use crate::remote_agents::fleet::{
    accepted_snapshot, agent_fault, agent_pane_ids, agents_fault, first_fault, fleet_fault,
    lemma_agent_placed, lemma_no_fault, lemma_occurrences_bound, occurrences, pane_fault, pane_ids,
    pane_owners, panes_fault, response_fault, shape_fault, tab_fault, tab_ids, tab_owners,
    tabs_fault, workspace_fault, workspace_ids, workspaces_fault, FleetResponseResult,
    FleetSessionSnapshot, FleetSuccessResponse, MAX_REMOTE_AGENTS,
};
use crate::remote_agents::sanitize::{
    clean_text, metadata_key, sanitized, sanitized_text_is_showable, valid_remote_id,
    MAX_REMOTE_TEXT_CHARS, MAX_REMOTE_TOKEN_CHARS,
};
use crate::schema::AgentStatus;
use crate::text::decimal;

verus! {

/// A text that may be absent, clean where it is there.
pub open spec fn clean_option(text: Option<Seq<char>>, max_chars: nat) -> bool {
    match text {
        Some(text) => clean_text(text, max_chars),
        None => true,
    }
}

/// Texts of which every one is clean.
pub open spec fn clean_map(texts: Map<Seq<char>, Seq<char>>, max_chars: nat) -> bool {
    forall|key: Seq<char>| #[trigger] texts.contains_key(key) ==> clean_text(texts[key], max_chars)
}

/// No more agents are accepted than the limit allows, and each is taken over.
pub proof fn accepted_agents_are_limited(s: FleetSessionSnapshot, known: Seq<AgentLabel>)
    requires
        fleet_fault(s) is None,
    ensures
        accepted_snapshot(s, known).agents.len() == s.agents@.len(),
        accepted_snapshot(s, known).agents.len() <= MAX_REMOTE_AGENTS,
{
}

/// An accepted agent has no fault of its own.
proof fn lemma_agent_sound(s: FleetSessionSnapshot, i: int)
    requires
        fleet_fault(s) is None,
        0 <= i < s.agents@.len(),
    ensures
        agent_fault(s, i) is None,
{
    lemma_no_fault(s.agents@.len(), |i: int| agent_fault(s, i), i);
}

/// The pane, the tab and the workspace of an accepted agent are in the session, and they belong
/// together.
pub proof fn accepted_agents_are_placed(s: FleetSessionSnapshot, i: int)
    requires
        fleet_fault(s) is None,
        0 <= i < s.agents@.len(),
    ensures
        ({
            let agent = s.agents@[i];
            let pane = s.panes@[pane_ids(s.panes@).index_of(agent.pane_id@)];
            let tab = s.tabs@[tab_ids(s.tabs@).index_of(agent.tab_id@)];
            &&& workspace_ids(s.workspaces@).contains(agent.workspace_id@)
            &&& tab_ids(s.tabs@).contains(agent.tab_id@)
            &&& pane_ids(s.panes@).contains(agent.pane_id@)
            &&& pane.tab_id@ == agent.tab_id@
            &&& pane.workspace_id@ == agent.workspace_id@
            &&& pane.terminal_id@ == agent.terminal_id@
            &&& tab.workspace_id@ == agent.workspace_id@
        }),
{
    lemma_agent_sound(s, i);
    lemma_agent_placed(s, i);
}

/// No two accepted agents run in the same pane.
pub proof fn accepted_panes_differ(s: FleetSessionSnapshot, known: Seq<AgentLabel>, i: int, j: int)
    requires
        fleet_fault(s) is None,
        0 <= i < j < s.agents@.len(),
    ensures
        accepted_snapshot(s, known).agents[i].pane_id != accepted_snapshot(s, known).agents[j].pane_id,
{
    lemma_agent_sound(s, j);
    let earlier = agent_pane_ids(s.agents@).take(j);
    assert(earlier[i] == s.agents@[i].pane_id@);
}

/// Items of the same owner have different ranks.
proof fn lemma_ranks_differ(owners: Seq<Seq<char>>, a: int, b: int)
    requires
        0 <= a < b < owners.len(),
        owners[a] == owners[b],
    ensures
        occurrences(owners, owners[a], a) < occurrences(owners, owners[b], b),
    decreases b,
{
    if a < b - 1 {
        if owners[b - 1] == owners[a] {
            lemma_ranks_differ(owners, a, b - 1);
        } else {
            lemma_occurrences_grow(owners, owners[a], a + 1, b);
        }
    }
}

proof fn lemma_occurrences_grow(owners: Seq<Seq<char>>, id: Seq<char>, a: int, b: int)
    requires
        0 <= a <= b,
    ensures
        occurrences(owners, id, a) <= occurrences(owners, id, b),
    decreases b,
{
    if a < b {
        lemma_occurrences_grow(owners, id, a, b - 1);
    }
}

/// No two accepted agents have the same place in the display order.
pub proof fn accepted_display_orders_differ(s: FleetSessionSnapshot, known: Seq<AgentLabel>, i: int, j: int)
    requires
        fleet_fault(s) is None,
        0 <= i < j < s.agents@.len(),
    ensures
        accepted_snapshot(s, known).agents[i].display_order != accepted_snapshot(s, known).agents[j].display_order,
{
    accepted_panes_differ(s, known, i, j);
    accepted_agents_are_placed(s, i);
    accepted_agents_are_placed(s, j);
    let a = s.agents@[i];
    let b = s.agents@[j];
    let wa = workspace_ids(s.workspaces@).index_of(a.workspace_id@);
    let wb = workspace_ids(s.workspaces@).index_of(b.workspace_id@);
    let ta = tab_ids(s.tabs@).index_of(a.tab_id@);
    let tb = tab_ids(s.tabs@).index_of(b.tab_id@);
    let pa = pane_ids(s.panes@).index_of(a.pane_id@);
    let pb = pane_ids(s.panes@).index_of(b.pane_id@);
    assert(workspace_ids(s.workspaces@)[wa] == a.workspace_id@);
    assert(workspace_ids(s.workspaces@)[wb] == b.workspace_id@);
    assert(tab_ids(s.tabs@)[ta] == a.tab_id@);
    assert(tab_ids(s.tabs@)[tb] == b.tab_id@);
    assert(pane_ids(s.panes@)[pa] == a.pane_id@);
    assert(pane_ids(s.panes@)[pb] == b.pane_id@);
    let tabs = tab_owners(s.tabs@);
    let panes = pane_owners(s.panes@);
    lemma_occurrences_bound(tabs, tabs[ta], ta);
    lemma_occurrences_bound(tabs, tabs[tb], tb);
    lemma_occurrences_bound(panes, panes[pa], pa);
    lemma_occurrences_bound(panes, panes[pb], pb);
    if wa == wb {
        assert(tabs[ta] == tabs[tb]);
        if ta < tb {
            lemma_ranks_differ(tabs, ta, tb);
        } else if tb < ta {
            lemma_ranks_differ(tabs, tb, ta);
        } else {
            assert(panes[pa] == panes[pb]);
            if pa < pb {
                lemma_ranks_differ(panes, pa, pb);
            } else if pb < pa {
                lemma_ranks_differ(panes, pb, pa);
            }
        }
    }
}

/// Every text that is taken over from an accepted session can be shown whole and is within its
/// limit; the identifiers are taken over as they are, and are valid.
pub proof fn accepted_texts_are_clean(s: FleetSessionSnapshot, known: Seq<AgentLabel>, i: int)
    requires
        fleet_fault(s) is None,
        0 <= i < s.agents@.len(),
    ensures
        ({
            let agent = accepted_snapshot(s, known).agents[i];
            let limit = MAX_REMOTE_TEXT_CHARS as nat;
            &&& clean_text(accepted_snapshot(s, known).version, limit)
            &&& clean_text(agent.workspace_label, limit)
            &&& clean_option(agent.tab_label, limit)
            &&& clean_option(agent.pane_label, limit)
            &&& clean_option(agent.terminal_title, limit)
            &&& clean_option(agent.terminal_title_stripped, limit)
            &&& clean_text(agent.agent_label, limit)
            &&& clean_option(agent.agent_kind_label, limit)
            &&& clean_map(agent.state_labels, limit)
            &&& clean_map(agent.tokens, MAX_REMOTE_TOKEN_CHARS as nat)
            &&& valid_remote_id(agent.workspace_id)
            &&& valid_remote_id(agent.tab_id)
            &&& valid_remote_id(agent.pane_id)
        }),
{
    lemma_agent_sound(s, i);
    assert forall|text: Seq<char>, limit: nat|
        clean_text(#[trigger] sanitized(text, limit), limit) by {
        sanitized_text_is_showable(text, limit);
    }
}

/// No complaint about some items, where there is none about any of them.
proof fn lemma_all_sound(n: nat, fault: spec_fn(int) -> Option<Seq<char>>)
    requires
        forall|i: int| 0 <= i < n ==> (#[trigger] fault(i)) is None,
    ensures
        first_fault(n, fault) is None,
    decreases n,
{
    if n > 0 {
        lemma_all_sound((n - 1) as nat, fault);
        assert(fault(n - 1) is None);
    }
}

/// The complaint about a list is the one about the first of its items that has one.
pub proof fn complaint_is_about_the_first(
    n: nat,
    fault: spec_fn(int) -> Option<Seq<char>>,
    i: int,
    error: Seq<char>,
)
    requires
        0 <= i < n,
        fault(i) == Some(error),
        forall|k: int| 0 <= k < i ==> (#[trigger] fault(k)) is None,
    ensures
        first_fault(n, fault) == Some(error),
    decreases n,
{
    if i == n - 1 {
        lemma_all_sound(i as nat, fault);
    } else {
        complaint_is_about_the_first((n - 1) as nat, fault, i, error);
    }
}

/// No two positions of an accepted session have the same workspace identifier.
proof fn lemma_workspaces_differ(s: FleetSessionSnapshot, a: int, b: int)
    requires
        workspaces_fault(s, s.workspaces@.len()) is None,
        0 <= a < b < s.workspaces@.len(),
    ensures
        s.workspaces@[a].workspace_id@ != s.workspaces@[b].workspace_id@,
{
    lemma_no_fault(s.workspaces@.len(), |i: int| workspace_fault(s, i), b);
    let earlier = workspace_ids(s.workspaces@).take(b);
    assert(earlier[a] == s.workspaces@[a].workspace_id@);
}

proof fn lemma_tabs_differ(s: FleetSessionSnapshot, a: int, b: int)
    requires
        tabs_fault(s, s.tabs@.len()) is None,
        0 <= a < b < s.tabs@.len(),
    ensures
        s.tabs@[a].tab_id@ != s.tabs@[b].tab_id@,
{
    lemma_no_fault(s.tabs@.len(), |i: int| tab_fault(s, i), b);
    let earlier = tab_ids(s.tabs@).take(b);
    assert(earlier[a] == s.tabs@[a].tab_id@);
}

proof fn lemma_panes_differ(s: FleetSessionSnapshot, a: int, b: int)
    requires
        panes_fault(s, s.panes@.len()) is None,
        0 <= a < b < s.panes@.len(),
    ensures
        s.panes@[a].pane_id@ != s.panes@[b].pane_id@,
{
    lemma_no_fault(s.panes@.len(), |i: int| pane_fault(s, i), b);
    let earlier = pane_ids(s.panes@).take(b);
    assert(earlier[a] == s.panes@[a].pane_id@);
}

proof fn lemma_workspace_position(s: FleetSessionSnapshot, w: int)
    requires
        workspaces_fault(s, s.workspaces@.len()) is None,
        0 <= w < s.workspaces@.len(),
    ensures
        workspace_ids(s.workspaces@).index_of(s.workspaces@[w].workspace_id@) == w,
{
    let ids = workspace_ids(s.workspaces@);
    assert(ids[w] == s.workspaces@[w].workspace_id@);
    let at = ids.index_of(ids[w]);
    assert(ids[at] == ids[w]);
    if at < w {
        lemma_workspaces_differ(s, at, w);
    } else if w < at {
        lemma_workspaces_differ(s, w, at);
    }
}

proof fn lemma_tab_position(s: FleetSessionSnapshot, t: int)
    requires
        tabs_fault(s, s.tabs@.len()) is None,
        0 <= t < s.tabs@.len(),
    ensures
        tab_ids(s.tabs@).index_of(s.tabs@[t].tab_id@) == t,
{
    let ids = tab_ids(s.tabs@);
    assert(ids[t] == s.tabs@[t].tab_id@);
    let at = ids.index_of(ids[t]);
    assert(ids[at] == ids[t]);
    if at < t {
        lemma_tabs_differ(s, at, t);
    } else if t < at {
        lemma_tabs_differ(s, t, at);
    }
}

proof fn lemma_pane_position(s: FleetSessionSnapshot, p: int)
    requires
        panes_fault(s, s.panes@.len()) is None,
        0 <= p < s.panes@.len(),
    ensures
        pane_ids(s.panes@).index_of(s.panes@[p].pane_id@) == p,
{
    let ids = pane_ids(s.panes@);
    assert(ids[p] == s.panes@[p].pane_id@);
    let at = ids.index_of(ids[p]);
    assert(ids[at] == ids[p]);
    if at < p {
        lemma_panes_differ(s, at, p);
    } else if p < at {
        lemma_panes_differ(s, p, at);
    }
}

/// How often an owner stands among the first items is the number of the positions where it stands.
proof fn lemma_occurrences_counted(owners: Seq<Seq<char>>, owner: Seq<char>, n: int)
    requires
        0 <= n <= owners.len(),
    ensures
        Set::new(|k: int| 0 <= k < n && owners[k] == owner).finite(),
        occurrences(owners, owner, n) == Set::new(
            |k: int| 0 <= k < n && owners[k] == owner,
        ).len(),
    decreases n,
{
    let all = Set::new(|k: int| 0 <= k < n && owners[k] == owner);
    if n == 0 {
        assert(all =~= Set::<int>::empty());
    } else {
        lemma_occurrences_counted(owners, owner, n - 1);
        let fewer = Set::new(|k: int| 0 <= k < n - 1 && owners[k] == owner);
        if owners[n - 1] == owner {
            assert(all =~= fewer.insert(n - 1));
        } else {
            assert(all =~= fewer);
        }
    }
}

/// An accepted agent is shown under the label of its own workspace, the one that the session lists
/// under the identifier that the agent gives, and in the place of that workspace.
pub proof fn agents_are_shown_under_their_workspace(
    s: FleetSessionSnapshot,
    known: Seq<AgentLabel>,
    i: int,
    w: int,
)
    requires
        fleet_fault(s) is None,
        0 <= i < s.agents@.len(),
        0 <= w < s.workspaces@.len(),
        s.workspaces@[w].workspace_id@ == s.agents@[i].workspace_id@,
    ensures
        ({
            let shown = accepted_snapshot(s, known).agents[i];
            &&& shown.workspace_label == sanitized(s.workspaces@[w].label@, 256)
            &&& shown.display_order.0 == w
            &&& shown.order.0 == w
        }),
{
    lemma_workspace_position(s, w);
}

/// Agents of workspaces whose labels look different are shown under different labels, and agents
/// of the same workspace under the same one.
pub proof fn workspace_labels_tell_workspaces_apart(
    s: FleetSessionSnapshot,
    known: Seq<AgentLabel>,
    i: int,
    w: int,
    j: int,
    v: int,
)
    requires
        fleet_fault(s) is None,
        0 <= i < s.agents@.len(),
        0 <= j < s.agents@.len(),
        0 <= w < s.workspaces@.len(),
        0 <= v < s.workspaces@.len(),
        s.workspaces@[w].workspace_id@ == s.agents@[i].workspace_id@,
        s.workspaces@[v].workspace_id@ == s.agents@[j].workspace_id@,
    ensures
        ({
            let agents = accepted_snapshot(s, known).agents;
            &&& agents[i].workspace_label == agents[j].workspace_label <==> sanitized(
                s.workspaces@[w].label@,
                256,
            ) == sanitized(s.workspaces@[v].label@, 256)
            &&& agents[i].display_order.0 < agents[j].display_order.0 <==> w < v
        }),
{
    agents_are_shown_under_their_workspace(s, known, i, w);
    agents_are_shown_under_their_workspace(s, known, j, v);
}

/// An accepted agent is shown in its own tab: under the label of that tab where its workspace has
/// another tab or the remote does not say that the label was not chosen, after the tabs that the
/// session lists before it in the same workspace, and by the number of that tab.
pub proof fn agents_are_shown_in_their_tab(
    s: FleetSessionSnapshot,
    known: Seq<AgentLabel>,
    i: int,
    t: int,
    earlier: Set<int>,
)
    requires
        fleet_fault(s) is None,
        0 <= i < s.agents@.len(),
        0 <= t < s.tabs@.len(),
        s.tabs@[t].tab_id@ == s.agents@[i].tab_id@,
        forall|k: int| #[trigger]
            earlier.contains(k) <==> 0 <= k < t && s.tabs@[k].workspace_id@
                == s.tabs@[t].workspace_id@,
    ensures
        ({
            let shown = accepted_snapshot(s, known).agents[i];
            let tab = s.tabs@[t];
            let several = exists|o: int|
                0 <= o < s.tabs@.len() && o != t && (#[trigger] s.tabs@[o]).workspace_id@
                    == tab.workspace_id@;
            &&& tab.workspace_id@ == s.agents@[i].workspace_id@
            &&& (several || tab.custom_label is None || tab.custom_label == Some(true))
                ==> shown.tab_label == Some(sanitized(tab.label@, 256))
            &&& (!several && tab.custom_label == Some(false)) ==> shown.tab_label is None
            &&& shown.order.1 == tab.number
            &&& shown.display_order.1 == earlier.len()
        }),
{
    lemma_agent_sound(s, i);
    lemma_agent_placed(s, i);
    lemma_tab_position(s, t);
    let owners = tab_owners(s.tabs@);
    let owner = s.tabs@[t].workspace_id@;
    let n = s.tabs@.len() as int;
    lemma_occurrences_bound(owners, owner, t);
    lemma_occurrences_counted(owners, owner, t);
    lemma_occurrences_counted(owners, owner, n);
    assert(owners[t] == owner);
    assert(earlier =~= Set::new(|k: int| 0 <= k < t && owners[k] == owner));
    let all = Set::new(|k: int| 0 <= k < n && owners[k] == owner);
    assert(all.contains(t));
    let several = exists|o: int|
        0 <= o < s.tabs@.len() && o != t && (#[trigger] s.tabs@[o]).workspace_id@ == owner;
    if several {
        let o = choose|o: int|
            0 <= o < s.tabs@.len() && o != t && (#[trigger] s.tabs@[o]).workspace_id@ == owner;
        assert(owners[o] == owner);
        assert(all.contains(o));
        assert(all.remove(t).contains(o));
        assert(all.remove(t).len() > 0) by {
            if all.remove(t).len() == 0 {
                assert(all.remove(t) =~= Set::<int>::empty());
            }
        }
        assert(all.len() > 1);
    } else {
        assert(all =~= Set::<int>::empty().insert(t)) by {
            assert forall|k: int| all.contains(k) implies k == t by {
                assert(owners[k] == s.tabs@[k].workspace_id@);
            }
        }
    }
}

/// An accepted agent is shown in the place of its own pane: after the panes that the session lists
/// before it in the same tab, and by the number of that pane or, where the remote gives none, by
/// that place, counted from one.
pub proof fn agents_are_shown_in_their_pane(
    s: FleetSessionSnapshot,
    known: Seq<AgentLabel>,
    i: int,
    p: int,
    earlier: Set<int>,
)
    requires
        fleet_fault(s) is None,
        0 <= i < s.agents@.len(),
        0 <= p < s.panes@.len(),
        s.panes@[p].pane_id@ == s.agents@[i].pane_id@,
        forall|k: int| #[trigger]
            earlier.contains(k) <==> 0 <= k < p && s.panes@[k].tab_id@ == s.panes@[p].tab_id@,
    ensures
        ({
            let shown = accepted_snapshot(s, known).agents[i];
            let pane = s.panes@[p];
            let place = earlier.len();
            &&& pane.tab_id@ == s.agents@[i].tab_id@
            &&& pane.workspace_id@ == s.agents@[i].workspace_id@
            &&& pane.terminal_id@ == s.agents@[i].terminal_id@
            &&& shown.display_order.2 == place
            &&& pane.number matches Some(number) ==> shown.order.2 == number
            &&& pane.number is None ==> shown.order.2 == place + 1
        }),
{
    lemma_agent_sound(s, i);
    lemma_pane_position(s, p);
    let owners = pane_owners(s.panes@);
    let owner = s.panes@[p].tab_id@;
    lemma_occurrences_bound(owners, owner, p);
    lemma_occurrences_counted(owners, owner, p);
    assert(owners[p] == owner);
    assert(earlier =~= Set::new(|k: int| 0 <= k < p && owners[k] == owner));
}

/// Of an accepted agent its identifiers are taken over as they are, and its texts sanitized, each
/// in its own place; what the remote does not give stays absent. The name to show is the display
/// name, or else the own name, or else the kind, or else just that it is an agent.
pub proof fn agents_keep_their_own_texts(
    s: FleetSessionSnapshot,
    known: Seq<AgentLabel>,
    i: int,
)
    requires
        fleet_fault(s) is None,
        0 <= i < s.agents@.len(),
    ensures
        ({
            let info = s.agents@[i];
            let shown = accepted_snapshot(s, known).agents[i];
            &&& shown.workspace_id == info.workspace_id@
            &&& shown.tab_id == info.tab_id@
            &&& shown.pane_id == info.pane_id@
            &&& shown.pane_label is Some <==> info.title is Some
            &&& info.title matches Some(text) ==> shown.pane_label == Some(sanitized(text@, 256))
            &&& shown.terminal_title is Some <==> info.terminal_title is Some
            &&& info.terminal_title matches Some(text) ==> shown.terminal_title == Some(
                sanitized(text@, 256),
            )
            &&& shown.terminal_title_stripped is Some <==> info.terminal_title_stripped is Some
            &&& info.terminal_title_stripped matches Some(text) ==> shown.terminal_title_stripped
                == Some(sanitized(text@, 256))
            &&& shown.agent_kind_label is Some <==> info.agent is Some
            &&& info.agent matches Some(text) ==> shown.agent_kind_label == Some(
                sanitized(text@, 256),
            )
            &&& info.display_agent matches Some(text) ==> shown.agent_label == sanitized(
                text@,
                256,
            )
            &&& info.display_agent is None ==> (info.name matches Some(text) ==> shown.agent_label
                == sanitized(text@, 256))
            &&& info.display_agent is None && info.name is None ==> (info.agent matches Some(text)
                ==> shown.agent_label == sanitized(text@, 256))
            &&& info.display_agent is None && info.name is None && info.agent is None
                ==> shown.agent_label == sanitized("agent"@, 256)
        }),
{
}

/// The metadata of an accepted agent is what the remote gives under names of letters, digits,
/// underscores and hyphens, each value sanitized and under its own name, labels and tokens apart.
pub proof fn agents_keep_their_own_metadata(
    s: FleetSessionSnapshot,
    known: Seq<AgentLabel>,
    i: int,
    key: Seq<char>,
)
    requires
        fleet_fault(s) is None,
        0 <= i < s.agents@.len(),
    ensures
        ({
            let info = s.agents@[i];
            let shown = accepted_snapshot(s, known).agents[i];
            &&& shown.state_labels.contains_key(key) <==> info.state_labels@.contains_key(key)
                && metadata_key(key)
            &&& shown.state_labels.contains_key(key) ==> shown.state_labels[key] == sanitized(
                info.state_labels@[key],
                256,
            )
            &&& shown.tokens.contains_key(key) <==> info.tokens@.contains_key(key)
                && metadata_key(key)
            &&& shown.tokens.contains_key(key) ==> shown.tokens[key] == sanitized(
                info.tokens@[key],
                512,
            )
        }),
{
}

/// An accepted agent is in the state that the remote reports: one that is done is idle and not yet
/// seen, and no other is unseen. Its kind is that of the first known label that is the reported
/// one, where there is such a label.
pub proof fn agents_keep_their_own_state_and_kind(
    s: FleetSessionSnapshot,
    known: Seq<AgentLabel>,
    i: int,
)
    requires
        fleet_fault(s) is None,
        0 <= i < s.agents@.len(),
    ensures
        ({
            let info = s.agents@[i];
            let shown = accepted_snapshot(s, known).agents[i];
            &&& shown.seen <==> info.agent_status != AgentStatus::Done
            &&& shown.state == AgentState::Working <==> info.agent_status == AgentStatus::Working
            &&& shown.state == AgentState::Blocked <==> info.agent_status == AgentStatus::Blocked
            &&& shown.state == AgentState::Unknown <==> info.agent_status == AgentStatus::Unknown
            &&& shown.state == AgentState::Idle <==> info.agent_status == AgentStatus::Idle
                || info.agent_status == AgentStatus::Done
            &&& info.agent is None ==> shown.agent is None
            &&& info.agent matches Some(label) ==> (forall|k: int|
                0 <= k < known.len() ==> (#[trigger] known[k]).label@ != label@)
                ==> shown.agent is None
            &&& info.agent matches Some(label) ==> forall|k: int|
                0 <= k < known.len() && (#[trigger] known[k]).label@ == label@ && (forall|e: int|
                    0 <= e < k ==> (#[trigger] known[e]).label@ != label@) ==> shown.agent == Some(
                    known[k].agent,
                )
        }),
{
    if let Some(label) = s.agents@[i].agent {
        if forall|k: int| 0 <= k < known.len() ==> (#[trigger] known[k]).label@ != label@ {
            unknown_labels_name_no_kind(known, label@);
        }
        assert forall|k: int|
            0 <= k < known.len() && (#[trigger] known[k]).label@ == label@ && (forall|e: int|
                0 <= e < k ==> (#[trigger] known[e]).label@ != label@) implies agent_for_label(
            known,
            label@,
        ) == Some(known[k].agent) by {
            first_known_label_names_the_kind(known, label@, k);
        }
    }
}

/// The version that a remote reports is taken over sanitized, and the protocol as it is: it is the
/// one that this build speaks.
pub proof fn accepted_versions_are_taken_over(s: FleetSessionSnapshot, known: Seq<AgentLabel>)
    requires
        fleet_fault(s) is None,
    ensures
        accepted_snapshot(s, known).version == sanitized(s.version@, 256),
        accepted_snapshot(s, known).protocol == s.protocol,
        s.protocol == 20,
{
}

/// The workspaces of a session are at fault where an identifier is not valid or stands twice.
proof fn lemma_workspaces_sound(s: FleetSessionSnapshot)
    ensures
        workspaces_fault(s, s.workspaces@.len()) is None <==> {
            &&& forall|i: int|
                0 <= i < s.workspaces@.len() ==> valid_remote_id(
                    (#[trigger] s.workspaces@[i]).workspace_id@,
                )
            &&& forall|i: int, j: int|
                0 <= i < j < s.workspaces@.len() ==> (#[trigger] s.workspaces@[i]).workspace_id@
                    != (#[trigger] s.workspaces@[j]).workspace_id@
        },
{
    let n = s.workspaces@.len();
    let fault = |i: int| workspace_fault(s, i);
    let ids = workspace_ids(s.workspaces@);
    if workspaces_fault(s, n) is None {
        assert forall|i: int| 0 <= i < n implies valid_remote_id(
            (#[trigger] s.workspaces@[i]).workspace_id@,
        ) by {
            lemma_no_fault(n, fault, i);
            assert(fault(i) is None);
        }
        assert forall|i: int, j: int| 0 <= i < j < n implies (
        #[trigger] s.workspaces@[i]).workspace_id@ != (
        #[trigger] s.workspaces@[j]).workspace_id@ by {
            lemma_workspaces_differ(s, i, j);
        }
    } else if (forall|i: int|
        0 <= i < n ==> valid_remote_id((#[trigger] s.workspaces@[i]).workspace_id@)) && (forall|
        i: int,
        j: int,
    |
        0 <= i < j < n ==> (#[trigger] s.workspaces@[i]).workspace_id@ != (
        #[trigger] s.workspaces@[j]).workspace_id@) {
        assert forall|i: int| 0 <= i < n implies (#[trigger] fault(i)) is None by {
            assert(valid_remote_id(s.workspaces@[i].workspace_id@));
            let earlier = ids.take(i);
            if earlier.contains(s.workspaces@[i].workspace_id@) {
                let k = choose|k: int|
                    0 <= k < earlier.len() && earlier[k] == s.workspaces@[i].workspace_id@;
                assert(ids[k] == s.workspaces@[k].workspace_id@);
                assert(s.workspaces@[k].workspace_id@ != s.workspaces@[i].workspace_id@);
            }
        }
        lemma_all_sound(n, fault);
    }
}

/// The tabs of a session are at fault where an identifier is not valid or stands twice, or where a
/// workspace is not in the session.
proof fn lemma_tabs_sound(s: FleetSessionSnapshot)
    ensures
        tabs_fault(s, s.tabs@.len()) is None <==> {
            &&& forall|i: int|
                0 <= i < s.tabs@.len() ==> valid_remote_id((#[trigger] s.tabs@[i]).tab_id@)
                    && valid_remote_id(s.tabs@[i].workspace_id@) && exists|w: int|
                    0 <= w < s.workspaces@.len() && (#[trigger] s.workspaces@[w]).workspace_id@
                        == s.tabs@[i].workspace_id@
            &&& forall|i: int, j: int|
                0 <= i < j < s.tabs@.len() ==> (#[trigger] s.tabs@[i]).tab_id@ != (
                #[trigger] s.tabs@[j]).tab_id@
        },
{
    let n = s.tabs@.len();
    let fault = |i: int| tab_fault(s, i);
    let ids = tab_ids(s.tabs@);
    let owners = workspace_ids(s.workspaces@);
    if tabs_fault(s, n) is None {
        assert forall|i: int| 0 <= i < n implies valid_remote_id((#[trigger] s.tabs@[i]).tab_id@)
            && valid_remote_id(s.tabs@[i].workspace_id@) && exists|w: int|
            0 <= w < s.workspaces@.len() && (#[trigger] s.workspaces@[w]).workspace_id@
                == s.tabs@[i].workspace_id@ by {
            lemma_no_fault(n, fault, i);
            assert(fault(i) is None);
            let w = owners.index_of(s.tabs@[i].workspace_id@);
            assert(owners[w] == s.workspaces@[w].workspace_id@);
        }
        assert forall|i: int, j: int| 0 <= i < j < n implies (#[trigger] s.tabs@[i]).tab_id@ != (
        #[trigger] s.tabs@[j]).tab_id@ by {
            lemma_tabs_differ(s, i, j);
        }
    } else if (forall|i: int|
        0 <= i < n ==> valid_remote_id((#[trigger] s.tabs@[i]).tab_id@) && valid_remote_id(
            s.tabs@[i].workspace_id@,
        ) && exists|w: int|
            0 <= w < s.workspaces@.len() && (#[trigger] s.workspaces@[w]).workspace_id@
                == s.tabs@[i].workspace_id@) && (forall|i: int, j: int|
        0 <= i < j < n ==> (#[trigger] s.tabs@[i]).tab_id@ != (#[trigger] s.tabs@[j]).tab_id@) {
        assert forall|i: int| 0 <= i < n implies (#[trigger] fault(i)) is None by {
            assert(valid_remote_id(s.tabs@[i].tab_id@));
            let w = choose|w: int|
                0 <= w < s.workspaces@.len() && (#[trigger] s.workspaces@[w]).workspace_id@
                    == s.tabs@[i].workspace_id@;
            assert(owners[w] == s.tabs@[i].workspace_id@);
            let earlier = ids.take(i);
            if earlier.contains(s.tabs@[i].tab_id@) {
                let k = choose|k: int|
                    0 <= k < earlier.len() && earlier[k] == s.tabs@[i].tab_id@;
                assert(ids[k] == s.tabs@[k].tab_id@);
                assert(s.tabs@[k].tab_id@ != s.tabs@[i].tab_id@);
            }
        }
        lemma_all_sound(n, fault);
    }
}

/// The panes of a session are at fault where an identifier is not valid or stands twice, or where
/// a tab is not in the session or not in the workspace of the pane.
proof fn lemma_panes_sound(s: FleetSessionSnapshot)
    requires
        tabs_fault(s, s.tabs@.len()) is None,
    ensures
        panes_fault(s, s.panes@.len()) is None <==> {
            &&& forall|i: int|
                0 <= i < s.panes@.len() ==> valid_remote_id((#[trigger] s.panes@[i]).pane_id@)
                    && valid_remote_id(s.panes@[i].terminal_id@) && valid_remote_id(
                    s.panes@[i].tab_id@,
                ) && valid_remote_id(s.panes@[i].workspace_id@) && exists|t: int|
                    0 <= t < s.tabs@.len() && (#[trigger] s.tabs@[t]).tab_id@ == s.panes@[i].tab_id@
                        && s.tabs@[t].workspace_id@ == s.panes@[i].workspace_id@
            &&& forall|i: int, j: int|
                0 <= i < j < s.panes@.len() ==> (#[trigger] s.panes@[i]).pane_id@ != (
                #[trigger] s.panes@[j]).pane_id@
        },
{
    let n = s.panes@.len();
    let fault = |i: int| pane_fault(s, i);
    let ids = pane_ids(s.panes@);
    let tabs = tab_ids(s.tabs@);
    let owners = workspace_ids(s.workspaces@);
    lemma_tabs_sound(s);
    if panes_fault(s, n) is None {
        assert forall|i: int| 0 <= i < n implies valid_remote_id((#[trigger] s.panes@[i]).pane_id@)
            && valid_remote_id(s.panes@[i].terminal_id@) && valid_remote_id(s.panes@[i].tab_id@)
            && valid_remote_id(s.panes@[i].workspace_id@) && exists|t: int|
            0 <= t < s.tabs@.len() && (#[trigger] s.tabs@[t]).tab_id@ == s.panes@[i].tab_id@
                && s.tabs@[t].workspace_id@ == s.panes@[i].workspace_id@ by {
            lemma_no_fault(n, fault, i);
            assert(fault(i) is None);
            let t = tabs.index_of(s.panes@[i].tab_id@);
            assert(tabs[t] == s.tabs@[t].tab_id@);
        }
        assert forall|i: int, j: int| 0 <= i < j < n implies (#[trigger] s.panes@[i]).pane_id@ != (
        #[trigger] s.panes@[j]).pane_id@ by {
            lemma_panes_differ(s, i, j);
        }
    } else if (forall|i: int|
        0 <= i < n ==> valid_remote_id((#[trigger] s.panes@[i]).pane_id@) && valid_remote_id(
            s.panes@[i].terminal_id@,
        ) && valid_remote_id(s.panes@[i].tab_id@) && valid_remote_id(s.panes@[i].workspace_id@)
            && exists|t: int|
            0 <= t < s.tabs@.len() && (#[trigger] s.tabs@[t]).tab_id@ == s.panes@[i].tab_id@
                && s.tabs@[t].workspace_id@ == s.panes@[i].workspace_id@) && (forall|
        i: int,
        j: int,
    |
        0 <= i < j < n ==> (#[trigger] s.panes@[i]).pane_id@ != (#[trigger] s.panes@[j]).pane_id@) {
        assert forall|i: int| 0 <= i < n implies (#[trigger] fault(i)) is None by {
            assert(valid_remote_id(s.panes@[i].pane_id@));
            let t = choose|t: int|
                0 <= t < s.tabs@.len() && (#[trigger] s.tabs@[t]).tab_id@ == s.panes@[i].tab_id@
                    && s.tabs@[t].workspace_id@ == s.panes@[i].workspace_id@;
            assert(tabs[t] == s.panes@[i].tab_id@);
            lemma_tab_position(s, t);
            assert(valid_remote_id(s.tabs@[t].tab_id@));
            let w = choose|w: int|
                0 <= w < s.workspaces@.len() && (#[trigger] s.workspaces@[w]).workspace_id@
                    == s.tabs@[t].workspace_id@;
            assert(owners[w] == s.panes@[i].workspace_id@);
            let earlier = ids.take(i);
            if earlier.contains(s.panes@[i].pane_id@) {
                let k = choose|k: int|
                    0 <= k < earlier.len() && earlier[k] == s.panes@[i].pane_id@;
                assert(ids[k] == s.panes@[k].pane_id@);
                assert(s.panes@[k].pane_id@ != s.panes@[i].pane_id@);
            }
        }
        lemma_all_sound(n, fault);
    }
}

/// The agents of a session are at fault where they bring too much metadata, where an identifier is
/// not valid or a pane stands twice, or where the pane is not in the session as they give it.
proof fn lemma_agents_sound(s: FleetSessionSnapshot)
    requires
        panes_fault(s, s.panes@.len()) is None,
    ensures
        agents_fault(s, s.agents@.len()) is None <==> {
            &&& forall|i: int|
                0 <= i < s.agents@.len() ==> (#[trigger] s.agents@[i]).state_labels@.len()
                    + s.agents@[i].tokens@.len() <= 64 && valid_remote_id(s.agents@[i].pane_id@)
                    && valid_remote_id(s.agents@[i].terminal_id@) && valid_remote_id(
                    s.agents@[i].tab_id@,
                ) && valid_remote_id(s.agents@[i].workspace_id@) && exists|p: int|
                    0 <= p < s.panes@.len() && (#[trigger] s.panes@[p]).pane_id@
                        == s.agents@[i].pane_id@ && s.panes@[p].tab_id@ == s.agents@[i].tab_id@
                        && s.panes@[p].workspace_id@ == s.agents@[i].workspace_id@
                        && s.panes@[p].terminal_id@ == s.agents@[i].terminal_id@
            &&& forall|i: int, j: int|
                0 <= i < j < s.agents@.len() ==> (#[trigger] s.agents@[i]).pane_id@ != (
                #[trigger] s.agents@[j]).pane_id@
        },
{
    let n = s.agents@.len();
    let fault = |i: int| agent_fault(s, i);
    let ids = agent_pane_ids(s.agents@);
    let panes = pane_ids(s.panes@);
    if agents_fault(s, n) is None {
        assert forall|i: int| 0 <= i < n implies (#[trigger] s.agents@[i]).state_labels@.len()
            + s.agents@[i].tokens@.len() <= 64 && valid_remote_id(s.agents@[i].pane_id@)
            && valid_remote_id(s.agents@[i].terminal_id@) && valid_remote_id(s.agents@[i].tab_id@)
            && valid_remote_id(s.agents@[i].workspace_id@) && exists|p: int|
            0 <= p < s.panes@.len() && (#[trigger] s.panes@[p]).pane_id@ == s.agents@[i].pane_id@
                && s.panes@[p].tab_id@ == s.agents@[i].tab_id@ && s.panes@[p].workspace_id@
                == s.agents@[i].workspace_id@ && s.panes@[p].terminal_id@
                == s.agents@[i].terminal_id@ by {
            lemma_no_fault(n, fault, i);
            assert(fault(i) is None);
            let p = panes.index_of(s.agents@[i].pane_id@);
            assert(panes[p] == s.panes@[p].pane_id@);
        }
        assert forall|i: int, j: int| 0 <= i < j < n implies (#[trigger] s.agents@[i]).pane_id@
            != (#[trigger] s.agents@[j]).pane_id@ by {
            lemma_no_fault(n, fault, j);
            assert(fault(j) is None);
            let earlier = ids.take(j);
            assert(earlier[i] == s.agents@[i].pane_id@);
        }
    } else if (forall|i: int|
        0 <= i < n ==> (#[trigger] s.agents@[i]).state_labels@.len() + s.agents@[i].tokens@.len()
            <= 64 && valid_remote_id(s.agents@[i].pane_id@) && valid_remote_id(
            s.agents@[i].terminal_id@,
        ) && valid_remote_id(s.agents@[i].tab_id@) && valid_remote_id(s.agents@[i].workspace_id@)
            && exists|p: int|
            0 <= p < s.panes@.len() && (#[trigger] s.panes@[p]).pane_id@ == s.agents@[i].pane_id@
                && s.panes@[p].tab_id@ == s.agents@[i].tab_id@ && s.panes@[p].workspace_id@
                == s.agents@[i].workspace_id@ && s.panes@[p].terminal_id@
                == s.agents@[i].terminal_id@) && (forall|i: int, j: int|
        0 <= i < j < n ==> (#[trigger] s.agents@[i]).pane_id@ != (
        #[trigger] s.agents@[j]).pane_id@) {
        assert forall|i: int| 0 <= i < n implies (#[trigger] fault(i)) is None by {
            assert(valid_remote_id(s.agents@[i].pane_id@));
            let p = choose|p: int|
                0 <= p < s.panes@.len() && (#[trigger] s.panes@[p]).pane_id@ == s.agents@[i].pane_id@
                    && s.panes@[p].tab_id@ == s.agents@[i].tab_id@ && s.panes@[p].workspace_id@
                    == s.agents@[i].workspace_id@ && s.panes@[p].terminal_id@
                    == s.agents@[i].terminal_id@;
            assert(panes[p] == s.agents@[i].pane_id@);
            lemma_pane_position(s, p);
            let earlier = ids.take(i);
            if earlier.contains(s.agents@[i].pane_id@) {
                let k = choose|k: int|
                    0 <= k < earlier.len() && earlier[k] == s.agents@[i].pane_id@;
                assert(ids[k] == s.agents@[k].pane_id@);
                assert(s.agents@[k].pane_id@ != s.agents@[i].pane_id@);
            }
        }
        lemma_all_sound(n, fault);
    }
}

/// A session is accepted if and only if it speaks the protocol of this build, lists no more than
/// may be listed, uses valid identifiers, none of them twice, and everything that it refers to is
/// in it: the workspace of each tab, the tab of each pane in the same workspace, and the pane of
/// each agent in the same tab, workspace and terminal.
pub proof fn sound_sessions_are_the_accepted_ones(s: FleetSessionSnapshot)
    ensures
        fleet_fault(s) is None <==> {
            &&& s.protocol == 20
            &&& s.workspaces@.len() <= 512
            &&& s.tabs@.len() <= 2048
            &&& s.panes@.len() <= 4096
            &&& s.agents@.len() <= 1024
            &&& forall|i: int|
                0 <= i < s.workspaces@.len() ==> valid_remote_id(
                    (#[trigger] s.workspaces@[i]).workspace_id@,
                )
            &&& forall|i: int, j: int|
                0 <= i < j < s.workspaces@.len() ==> (#[trigger] s.workspaces@[i]).workspace_id@
                    != (#[trigger] s.workspaces@[j]).workspace_id@
            &&& forall|i: int|
                0 <= i < s.tabs@.len() ==> valid_remote_id((#[trigger] s.tabs@[i]).tab_id@)
                    && valid_remote_id(s.tabs@[i].workspace_id@) && exists|w: int|
                    0 <= w < s.workspaces@.len() && (#[trigger] s.workspaces@[w]).workspace_id@
                        == s.tabs@[i].workspace_id@
            &&& forall|i: int, j: int|
                0 <= i < j < s.tabs@.len() ==> (#[trigger] s.tabs@[i]).tab_id@ != (
                #[trigger] s.tabs@[j]).tab_id@
            &&& forall|i: int|
                0 <= i < s.panes@.len() ==> valid_remote_id((#[trigger] s.panes@[i]).pane_id@)
                    && valid_remote_id(s.panes@[i].terminal_id@) && valid_remote_id(
                    s.panes@[i].tab_id@,
                ) && valid_remote_id(s.panes@[i].workspace_id@) && exists|t: int|
                    0 <= t < s.tabs@.len() && (#[trigger] s.tabs@[t]).tab_id@ == s.panes@[i].tab_id@
                        && s.tabs@[t].workspace_id@ == s.panes@[i].workspace_id@
            &&& forall|i: int, j: int|
                0 <= i < j < s.panes@.len() ==> (#[trigger] s.panes@[i]).pane_id@ != (
                #[trigger] s.panes@[j]).pane_id@
            &&& forall|i: int|
                0 <= i < s.agents@.len() ==> (#[trigger] s.agents@[i]).state_labels@.len()
                    + s.agents@[i].tokens@.len() <= 64 && valid_remote_id(s.agents@[i].pane_id@)
                    && valid_remote_id(s.agents@[i].terminal_id@) && valid_remote_id(
                    s.agents@[i].tab_id@,
                ) && valid_remote_id(s.agents@[i].workspace_id@) && exists|p: int|
                    0 <= p < s.panes@.len() && (#[trigger] s.panes@[p]).pane_id@
                        == s.agents@[i].pane_id@ && s.panes@[p].tab_id@ == s.agents@[i].tab_id@
                        && s.panes@[p].workspace_id@ == s.agents@[i].workspace_id@
                        && s.panes@[p].terminal_id@ == s.agents@[i].terminal_id@
            &&& forall|i: int, j: int|
                0 <= i < j < s.agents@.len() ==> (#[trigger] s.agents@[i]).pane_id@ != (
                #[trigger] s.agents@[j]).pane_id@
        },
{
    if shape_fault(s) is None {
        lemma_workspaces_sound(s);
        if workspaces_fault(s, s.workspaces@.len()) is None {
            lemma_tabs_sound(s);
            if tabs_fault(s, s.tabs@.len()) is None {
                lemma_panes_sound(s);
                if panes_fault(s, s.panes@.len()) is None {
                    lemma_agents_sound(s);
                }
            }
        }
    }
}

/// A session that is refused is refused for its first complaint: about its protocol, then about
/// what it lists too much of, then about its workspaces, its tabs, its panes and its agents.
pub proof fn refusals_give_the_first_complaint(s: FleetSessionSnapshot)
    ensures
        s.protocol != 20 ==> fleet_fault(s) == Some(
            "remote protocol "@ + decimal(s.protocol as nat)
                + " is incompatible with local protocol "@ + decimal(20),
        ),
        s.protocol == 20 && s.workspaces@.len() > 512 ==> fleet_fault(s) == Some(
            "remote snapshot contains more than "@ + decimal(512) + " "@ + "workspaces"@,
        ),
        s.protocol == 20 && s.workspaces@.len() <= 512 && s.tabs@.len() > 2048 ==> fleet_fault(s)
            == Some("remote snapshot contains more than "@ + decimal(2048) + " "@ + "tabs"@),
        s.protocol == 20 && s.workspaces@.len() <= 512 && s.tabs@.len() <= 2048 && s.panes@.len()
            > 4096 ==> fleet_fault(s) == Some(
            "remote snapshot contains more than "@ + decimal(4096) + " "@ + "panes"@,
        ),
        s.protocol == 20 && s.workspaces@.len() <= 512 && s.tabs@.len() <= 2048 && s.panes@.len()
            <= 4096 && s.agents@.len() > 1024 ==> fleet_fault(s) == Some(
            "remote snapshot contains more than "@ + decimal(1024) + " "@ + "agents"@,
        ),
        s.protocol == 20 && s.workspaces@.len() <= 512 && s.tabs@.len() <= 2048 && s.panes@.len()
            <= 4096 && s.agents@.len() <= 1024 ==> {
            let workspaces = first_fault(s.workspaces@.len(), |i: int| workspace_fault(s, i));
            let tabs = first_fault(s.tabs@.len(), |i: int| tab_fault(s, i));
            let panes = first_fault(s.panes@.len(), |i: int| pane_fault(s, i));
            let agents = first_fault(s.agents@.len(), |i: int| agent_fault(s, i));
            &&& workspaces is Some ==> fleet_fault(s) == workspaces
            &&& workspaces is None && tabs is Some ==> fleet_fault(s) == tabs
            &&& workspaces is None && tabs is None && panes is Some ==> fleet_fault(s) == panes
            &&& workspaces is None && tabs is None && panes is None ==> fleet_fault(s) == agents
        },
{
}

/// A workspace is refused because its identifier is not valid, or else because it stands twice; a
/// tab also because its workspace is not in the session.
pub proof fn refused_workspaces_and_tabs_say_why(s: FleetSessionSnapshot, i: int, k: int)
    ensures
        0 <= i < s.workspaces@.len() && !valid_remote_id(s.workspaces@[i].workspace_id@)
            ==> workspace_fault(s, i) == Some("remote "@ + "workspace"@ + " id is invalid"@),
        0 <= k < i < s.workspaces@.len() && valid_remote_id(s.workspaces@[i].workspace_id@)
            && s.workspaces@[k].workspace_id@ == s.workspaces@[i].workspace_id@ ==> workspace_fault(
            s,
            i,
        ) == Some("remote snapshot contains duplicate workspace ids"@),
        0 <= i < s.tabs@.len() ==> ({
            let tab = s.tabs@[i];
            let valid = valid_remote_id(tab.tab_id@) && valid_remote_id(tab.workspace_id@);
            let unknown = forall|w: int|
                0 <= w < s.workspaces@.len() ==> (#[trigger] s.workspaces@[w]).workspace_id@
                    != tab.workspace_id@;
            &&& !valid_remote_id(tab.tab_id@) ==> tab_fault(s, i) == Some(
                "remote "@ + "tab"@ + " id is invalid"@,
            )
            &&& valid_remote_id(tab.tab_id@) && !valid_remote_id(tab.workspace_id@) ==> tab_fault(
                s,
                i,
            ) == Some("remote "@ + "workspace"@ + " id is invalid"@)
            &&& valid && unknown ==> tab_fault(s, i) == Some(
                "remote tab references an unknown workspace"@,
            )
            &&& valid && !unknown && 0 <= k < i && s.tabs@[k].tab_id@ == tab.tab_id@ ==> tab_fault(
                s,
                i,
            ) == Some("remote snapshot contains duplicate tab ids"@)
        }),
{
    if 0 <= k < i < s.workspaces@.len() {
        let earlier = workspace_ids(s.workspaces@).take(i);
        assert(earlier[k] == s.workspaces@[k].workspace_id@);
    }
    if 0 <= i < s.tabs@.len() {
        let owners = workspace_ids(s.workspaces@);
        let owner = s.tabs@[i].workspace_id@;
        if owners.contains(owner) {
            let w = owners.index_of(owner);
            assert(s.workspaces@[w].workspace_id@ == owner);
        }
        assert forall|w: int| 0 <= w < s.workspaces@.len() && (
        #[trigger] s.workspaces@[w]).workspace_id@ == owner implies owners.contains(owner) by {
            assert(owners[w] == owner);
        }
        if 0 <= k < i {
            let earlier = tab_ids(s.tabs@).take(i);
            assert(earlier[k] == s.tabs@[k].tab_id@);
        }
    }
}

/// A pane is refused because an identifier is not valid, or else because its workspace or its tab
/// is not in the session or the tab is in another workspace, or else because it stands twice.
pub proof fn refused_panes_say_why(s: FleetSessionSnapshot, i: int, k: int)
    requires
        tabs_fault(s, s.tabs@.len()) is None,
        0 <= i < s.panes@.len(),
    ensures
        ({
            let pane = s.panes@[i];
            let valid = valid_remote_id(pane.terminal_id@) && valid_remote_id(pane.workspace_id@)
                && valid_remote_id(pane.tab_id@) && valid_remote_id(pane.pane_id@);
            let workspace_known = exists|w: int|
                0 <= w < s.workspaces@.len() && (#[trigger] s.workspaces@[w]).workspace_id@
                    == pane.workspace_id@;
            let tab_known = exists|t: int|
                0 <= t < s.tabs@.len() && (#[trigger] s.tabs@[t]).tab_id@ == pane.tab_id@;
            let tab_fits = exists|t: int|
                0 <= t < s.tabs@.len() && (#[trigger] s.tabs@[t]).tab_id@ == pane.tab_id@
                    && s.tabs@[t].workspace_id@ == pane.workspace_id@;
            &&& !valid_remote_id(pane.terminal_id@) ==> pane_fault(s, i) == Some(
                "remote "@ + "terminal"@ + " id is invalid"@,
            )
            &&& valid_remote_id(pane.terminal_id@) && !valid_remote_id(pane.workspace_id@)
                ==> pane_fault(s, i) == Some("remote "@ + "workspace"@ + " id is invalid"@)
            &&& valid_remote_id(pane.terminal_id@) && valid_remote_id(pane.workspace_id@)
                && !valid_remote_id(pane.tab_id@) ==> pane_fault(s, i) == Some(
                "remote "@ + "tab"@ + " id is invalid"@,
            )
            &&& valid_remote_id(pane.terminal_id@) && valid_remote_id(pane.workspace_id@)
                && valid_remote_id(pane.tab_id@) && !valid_remote_id(pane.pane_id@) ==> pane_fault(
                s,
                i,
            ) == Some("remote "@ + "pane"@ + " id is invalid"@)
            &&& valid && !workspace_known ==> pane_fault(s, i) == Some(
                "remote pane references an unknown workspace"@,
            )
            &&& valid && workspace_known && !tab_known ==> pane_fault(s, i) == Some(
                "remote pane references an unknown tab"@,
            )
            &&& valid && workspace_known && tab_known && !tab_fits ==> pane_fault(s, i) == Some(
                "remote pane tab belongs to a different workspace"@,
            )
            &&& valid && tab_fits && 0 <= k < i && s.panes@[k].pane_id@ == pane.pane_id@
                ==> pane_fault(s, i) == Some("remote snapshot contains duplicate pane ids"@)
        }),
{
    let pane = s.panes@[i];
    let owners = workspace_ids(s.workspaces@);
    let tabs = tab_ids(s.tabs@);
    lemma_tabs_sound(s);
    assert forall|w: int| 0 <= w < s.workspaces@.len() && (
    #[trigger] s.workspaces@[w]).workspace_id@ == pane.workspace_id@ implies owners.contains(
        pane.workspace_id@,
    ) by {
        assert(owners[w] == pane.workspace_id@);
    }
    if owners.contains(pane.workspace_id@) {
        let w = owners.index_of(pane.workspace_id@);
        assert(s.workspaces@[w].workspace_id@ == pane.workspace_id@);
    }
    assert forall|t: int| 0 <= t < s.tabs@.len() && (#[trigger] s.tabs@[t]).tab_id@
        == pane.tab_id@ implies tabs.contains(pane.tab_id@) && tabs.index_of(pane.tab_id@) == t by {
        assert(tabs[t] == pane.tab_id@);
        lemma_tab_position(s, t);
    }
    if tabs.contains(pane.tab_id@) {
        let t = tabs.index_of(pane.tab_id@);
        assert(s.tabs@[t].tab_id@ == pane.tab_id@);
        assert(valid_remote_id(s.tabs@[t].tab_id@));
    }
    if 0 <= k < i {
        let earlier = pane_ids(s.panes@).take(i);
        assert(earlier[k] == s.panes@[k].pane_id@);
    }
}

/// An agent is refused because it brings too much metadata or an identifier is not valid, or else
/// because its pane stands twice, is not in the session, or is there in another place.
pub proof fn refused_agents_say_why(s: FleetSessionSnapshot, i: int, k: int)
    requires
        panes_fault(s, s.panes@.len()) is None,
        0 <= i < s.agents@.len(),
    ensures
        ({
            let info = s.agents@[i];
            let few = info.state_labels@.len() + info.tokens@.len() <= 64;
            let valid = few && valid_remote_id(info.terminal_id@) && valid_remote_id(
                info.workspace_id@,
            ) && valid_remote_id(info.tab_id@) && valid_remote_id(info.pane_id@);
            let taken = exists|e: int|
                0 <= e < i && (#[trigger] s.agents@[e]).pane_id@ == info.pane_id@;
            let pane_known = exists|p: int|
                0 <= p < s.panes@.len() && (#[trigger] s.panes@[p]).pane_id@ == info.pane_id@;
            let pane_fits = exists|p: int|
                0 <= p < s.panes@.len() && (#[trigger] s.panes@[p]).pane_id@ == info.pane_id@
                    && s.panes@[p].tab_id@ == info.tab_id@ && s.panes@[p].workspace_id@
                    == info.workspace_id@ && s.panes@[p].terminal_id@ == info.terminal_id@;
            &&& !few ==> agent_fault(s, i) == Some(
                "remote agent metadata contains more than "@ + decimal(64) + " entries"@,
            )
            &&& few && !valid_remote_id(info.terminal_id@) ==> agent_fault(s, i) == Some(
                "remote "@ + "terminal"@ + " id is invalid"@,
            )
            &&& few && valid_remote_id(info.terminal_id@) && !valid_remote_id(info.workspace_id@)
                ==> agent_fault(s, i) == Some("remote "@ + "workspace"@ + " id is invalid"@)
            &&& few && valid_remote_id(info.terminal_id@) && valid_remote_id(info.workspace_id@)
                && !valid_remote_id(info.tab_id@) ==> agent_fault(s, i) == Some(
                "remote "@ + "tab"@ + " id is invalid"@,
            )
            &&& few && valid_remote_id(info.terminal_id@) && valid_remote_id(info.workspace_id@)
                && valid_remote_id(info.tab_id@) && !valid_remote_id(info.pane_id@) ==> agent_fault(
                s,
                i,
            ) == Some("remote "@ + "pane"@ + " id is invalid"@)
            &&& valid && taken ==> agent_fault(s, i) == Some(
                "remote snapshot contains duplicate agent pane ids"@,
            )
            &&& valid && !taken && !pane_known ==> agent_fault(s, i) == Some(
                "remote agent references an unknown pane"@,
            )
            &&& valid && !taken && pane_known && !pane_fits ==> agent_fault(s, i) == Some(
                "remote agent identity disagrees with its pane"@,
            )
        }),
{
    let info = s.agents@[i];
    let panes = pane_ids(s.panes@);
    let earlier = agent_pane_ids(s.agents@).take(i);
    assert forall|e: int| 0 <= e < i && (#[trigger] s.agents@[e]).pane_id@
        == info.pane_id@ implies earlier.contains(info.pane_id@) by {
        assert(earlier[e] == info.pane_id@);
    }
    if earlier.contains(info.pane_id@) {
        let e = choose|e: int| 0 <= e < earlier.len() && earlier[e] == info.pane_id@;
        assert(s.agents@[e].pane_id@ == info.pane_id@);
    }
    assert forall|p: int| 0 <= p < s.panes@.len() && (#[trigger] s.panes@[p]).pane_id@
        == info.pane_id@ implies panes.contains(info.pane_id@) && panes.index_of(info.pane_id@)
        == p by {
        assert(panes[p] == info.pane_id@);
        lemma_pane_position(s, p);
    }
    if panes.contains(info.pane_id@) {
        let p = panes.index_of(info.pane_id@);
        assert(s.panes@[p].pane_id@ == info.pane_id@);
    }
}

/// An answer that cannot be decoded or is no session is refused as such; a session in an answer is
/// judged as the session itself.
pub proof fn refused_answers_say_why(response: Result<FleetSuccessResponse, String>)
    ensures
        response matches Err(error) ==> response_fault(response) == Some(
            "invalid remote snapshot response: "@ + error@,
        ),
        response matches Ok(answer) ==> match answer.result {
            FleetResponseResult::Other => response_fault(response) == Some(
                "remote response was not a session snapshot"@,
            ),
            FleetResponseResult::SessionSnapshot { snapshot } => response_fault(response)
                == fleet_fault(snapshot),
        },
{
}

} // verus!
