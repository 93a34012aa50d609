//! Checks what a remote session reports and turns it into a presentation.

use vstd::hash_map::StringHashMap;
use vstd::prelude::*;
use vstd::string::*;

use crate::detect::{agent_for_label, parse_agent_label, Agent, AgentLabel};
use crate::ordered_map::MetadataMap;
use crate::protocol::PROTOCOL_VERSION;
use crate::remote_agents::presentation::{
    PresentationModel, RemoteAgentPresentation, RemoteAgentSnapshot, SnapshotModel,
};
use crate::remote_agents::sanitize::{
    invalid_id_message, sanitize_remote_map, sanitize_remote_option, sanitize_remote_text,
    sanitized, sanitized_map, sanitized_option, valid_remote_id, validate_remote_id,
    MAX_REMOTE_TEXT_CHARS, MAX_REMOTE_TOKEN_CHARS,
};
use crate::schema::{presentation_state, state_for_status, AgentStatus};
use crate::text::{decimal, decimal_text};

verus! {

pub const MAX_REMOTE_WORKSPACES: usize = 512;

pub const MAX_REMOTE_TABS: usize = 2048;

pub const MAX_REMOTE_PANES: usize = 4096;

pub const MAX_REMOTE_AGENTS: usize = 1024;

pub const MAX_REMOTE_METADATA_ENTRIES_PER_AGENT: usize = 64;

/// A successful answer of a remote session.
#[derive(Debug)]
pub struct FleetSuccessResponse {
    pub result: FleetResponseResult,
}

/// What a remote session answered.
#[derive(Debug)]
pub enum FleetResponseResult {
    SessionSnapshot { snapshot: FleetSessionSnapshot },
    Other,
}

/// A session as its remote describes it.
#[derive(Debug)]
pub struct FleetSessionSnapshot {
    pub version: String,
    pub protocol: u32,
    pub workspaces: Vec<FleetWorkspaceInfo>,
    pub tabs: Vec<FleetTabInfo>,
    pub panes: Vec<FleetPaneInfo>,
    pub agents: Vec<FleetAgentInfo>,
}

#[derive(Debug)]
pub struct FleetWorkspaceInfo {
    pub workspace_id: String,
    pub label: String,
}

#[derive(Debug)]
pub struct FleetTabInfo {
    pub tab_id: String,
    pub workspace_id: String,
    pub number: usize,
    pub label: String,
    pub custom_label: Option<bool>,
}

#[derive(Debug)]
pub struct FleetPaneInfo {
    pub pane_id: String,
    pub number: Option<usize>,
    pub terminal_id: String,
    pub workspace_id: String,
    pub tab_id: String,
}

#[derive(Debug)]
pub struct FleetAgentInfo {
    pub terminal_id: String,
    pub name: Option<String>,
    pub agent: Option<String>,
    pub title: Option<String>,
    pub terminal_title: Option<String>,
    pub terminal_title_stripped: Option<String>,
    pub display_agent: Option<String>,
    pub agent_status: AgentStatus,
    pub state_labels: MetadataMap,
    pub tokens: MetadataMap,
    pub workspace_id: String,
    pub tab_id: String,
    pub pane_id: String,
}

/// The complaint about the first of `n` items that has one.
pub open spec fn first_fault(n: nat, fault: spec_fn(int) -> Option<Seq<char>>) -> Option<Seq<char>>
    decreases n,
{
    if n == 0 {
        None
    } else {
        match first_fault((n - 1) as nat, fault) {
            Some(error) => Some(error),
            None => fault(n - 1),
        }
    }
}

/// The first complaint about some items is also the first about more of them.
proof fn lemma_fault_stays(m: nat, n: nat, fault: spec_fn(int) -> Option<Seq<char>>)
    requires
        m <= n,
        first_fault(m, fault) is Some,
    ensures
        first_fault(n, fault) == first_fault(m, fault),
    decreases n,
{
    if m < n {
        lemma_fault_stays(m, (n - 1) as nat, fault);
    }
}

/// Where no item has a complaint, none of the items does.
pub proof fn lemma_no_fault(n: nat, fault: spec_fn(int) -> Option<Seq<char>>, i: int)
    requires
        first_fault(n, fault) is None,
        0 <= i < n,
    ensures
        fault(i) is None,
    decreases n,
{
    if i < n - 1 {
        lemma_no_fault((n - 1) as nat, fault, i);
    }
}

/// How often an identifier stands among the first `n` of a list.
pub open spec fn occurrences(ids: Seq<Seq<char>>, id: Seq<char>, n: int) -> nat
    decreases n,
{
    if n <= 0 {
        0
    } else {
        occurrences(ids, id, n - 1) + if ids[n - 1] == id {
            1nat
        } else {
            0nat
        }
    }
}

pub open spec fn workspace_ids(workspaces: Seq<FleetWorkspaceInfo>) -> Seq<Seq<char>> {
    Seq::new(workspaces.len(), |i: int| workspaces[i].workspace_id@)
}

pub open spec fn tab_ids(tabs: Seq<FleetTabInfo>) -> Seq<Seq<char>> {
    Seq::new(tabs.len(), |i: int| tabs[i].tab_id@)
}

/// The workspace of each tab.
pub open spec fn tab_owners(tabs: Seq<FleetTabInfo>) -> Seq<Seq<char>> {
    Seq::new(tabs.len(), |i: int| tabs[i].workspace_id@)
}

pub open spec fn pane_ids(panes: Seq<FleetPaneInfo>) -> Seq<Seq<char>> {
    Seq::new(panes.len(), |i: int| panes[i].pane_id@)
}

/// The tab of each pane.
pub open spec fn pane_owners(panes: Seq<FleetPaneInfo>) -> Seq<Seq<char>> {
    Seq::new(panes.len(), |i: int| panes[i].tab_id@)
}

pub open spec fn agent_pane_ids(agents: Seq<FleetAgentInfo>) -> Seq<Seq<char>> {
    Seq::new(agents.len(), |i: int| agents[i].pane_id@)
}

/// What is wrong with a workspace.
pub open spec fn workspace_fault(s: FleetSessionSnapshot, i: int) -> Option<Seq<char>> {
    let workspace = s.workspaces@[i];
    if !valid_remote_id(workspace.workspace_id@) {
        Some(invalid_id_message("workspace"@))
    } else if workspace_ids(s.workspaces@).take(i).contains(workspace.workspace_id@) {
        Some("remote snapshot contains duplicate workspace ids"@)
    } else {
        None
    }
}

/// What is wrong with a tab.
pub open spec fn tab_fault(s: FleetSessionSnapshot, i: int) -> Option<Seq<char>> {
    let tab = s.tabs@[i];
    if !valid_remote_id(tab.tab_id@) {
        Some(invalid_id_message("tab"@))
    } else if !valid_remote_id(tab.workspace_id@) {
        Some(invalid_id_message("workspace"@))
    } else if !workspace_ids(s.workspaces@).contains(tab.workspace_id@) {
        Some("remote tab references an unknown workspace"@)
    } else if tab_ids(s.tabs@).take(i).contains(tab.tab_id@) {
        Some("remote snapshot contains duplicate tab ids"@)
    } else {
        None
    }
}

/// What is wrong with a pane.
pub open spec fn pane_fault(s: FleetSessionSnapshot, i: int) -> Option<Seq<char>> {
    let pane = s.panes@[i];
    if !valid_remote_id(pane.terminal_id@) {
        Some(invalid_id_message("terminal"@))
    } else if !valid_remote_id(pane.workspace_id@) {
        Some(invalid_id_message("workspace"@))
    } else if !valid_remote_id(pane.tab_id@) {
        Some(invalid_id_message("tab"@))
    } else if !valid_remote_id(pane.pane_id@) {
        Some(invalid_id_message("pane"@))
    } else if !workspace_ids(s.workspaces@).contains(pane.workspace_id@) {
        Some("remote pane references an unknown workspace"@)
    } else if !tab_ids(s.tabs@).contains(pane.tab_id@) {
        Some("remote pane references an unknown tab"@)
    } else if s.tabs@[tab_ids(s.tabs@).index_of(pane.tab_id@)].workspace_id@ != pane.workspace_id@ {
        Some("remote pane tab belongs to a different workspace"@)
    } else if pane_ids(s.panes@).take(i).contains(pane.pane_id@) {
        Some("remote snapshot contains duplicate pane ids"@)
    } else {
        None
    }
}

/// What is wrong with an agent.
pub open spec fn agent_fault(s: FleetSessionSnapshot, i: int) -> Option<Seq<char>> {
    let info = s.agents@[i];
    let pane = s.panes@[pane_ids(s.panes@).index_of(info.pane_id@)];
    if info.state_labels@.len() + info.tokens@.len() > MAX_REMOTE_METADATA_ENTRIES_PER_AGENT {
        Some(
            "remote agent metadata contains more than "@ + decimal(
                MAX_REMOTE_METADATA_ENTRIES_PER_AGENT as nat,
            ) + " entries"@,
        )
    } else if !valid_remote_id(info.terminal_id@) {
        Some(invalid_id_message("terminal"@))
    } else if !valid_remote_id(info.workspace_id@) {
        Some(invalid_id_message("workspace"@))
    } else if !valid_remote_id(info.tab_id@) {
        Some(invalid_id_message("tab"@))
    } else if !valid_remote_id(info.pane_id@) {
        Some(invalid_id_message("pane"@))
    } else if agent_pane_ids(s.agents@).take(i).contains(info.pane_id@) {
        Some("remote snapshot contains duplicate agent pane ids"@)
    } else if !pane_ids(s.panes@).contains(info.pane_id@) {
        Some("remote agent references an unknown pane"@)
    } else if pane.workspace_id@ != info.workspace_id@ || pane.tab_id@ != info.tab_id@
        || pane.terminal_id@ != info.terminal_id@ {
        Some("remote agent identity disagrees with its pane"@)
    } else {
        None
    }
}

pub open spec fn workspaces_fault(s: FleetSessionSnapshot, n: nat) -> Option<Seq<char>> {
    first_fault(n, |i: int| workspace_fault(s, i))
}

pub open spec fn tabs_fault(s: FleetSessionSnapshot, n: nat) -> Option<Seq<char>> {
    first_fault(n, |i: int| tab_fault(s, i))
}

pub open spec fn panes_fault(s: FleetSessionSnapshot, n: nat) -> Option<Seq<char>> {
    first_fault(n, |i: int| pane_fault(s, i))
}

pub open spec fn agents_fault(s: FleetSessionSnapshot, n: nat) -> Option<Seq<char>> {
    first_fault(n, |i: int| agent_fault(s, i))
}

/// The complaint about a list that is too long.
pub open spec fn too_many_message(limit: nat, what: Seq<char>) -> Seq<char> {
    "remote snapshot contains more than "@ + decimal(limit) + " "@ + what
}

/// The complaint about the protocol of a remote session.
pub open spec fn protocol_message(protocol: u32) -> Seq<char> {
    "remote protocol "@ + decimal(protocol as nat) + " is incompatible with local protocol "@
        + decimal(PROTOCOL_VERSION as nat)
}

/// What is wrong with a reported session as a whole.
pub open spec fn shape_fault(s: FleetSessionSnapshot) -> Option<Seq<char>> {
    if s.protocol != PROTOCOL_VERSION {
        Some(protocol_message(s.protocol))
    } else if s.workspaces@.len() > MAX_REMOTE_WORKSPACES {
        Some(too_many_message(MAX_REMOTE_WORKSPACES as nat, "workspaces"@))
    } else if s.tabs@.len() > MAX_REMOTE_TABS {
        Some(too_many_message(MAX_REMOTE_TABS as nat, "tabs"@))
    } else if s.panes@.len() > MAX_REMOTE_PANES {
        Some(too_many_message(MAX_REMOTE_PANES as nat, "panes"@))
    } else if s.agents@.len() > MAX_REMOTE_AGENTS {
        Some(too_many_message(MAX_REMOTE_AGENTS as nat, "agents"@))
    } else {
        None
    }
}

/// Why a reported session is refused: the first complaint, looking at the session as a whole,
/// its workspaces, its tabs, its panes and its agents, each list from the front.
pub open spec fn fleet_fault(s: FleetSessionSnapshot) -> Option<Seq<char>> {
    if shape_fault(s) is Some {
        shape_fault(s)
    } else if workspaces_fault(s, s.workspaces@.len()) is Some {
        workspaces_fault(s, s.workspaces@.len())
    } else if tabs_fault(s, s.tabs@.len()) is Some {
        tabs_fault(s, s.tabs@.len())
    } else if panes_fault(s, s.panes@.len()) is Some {
        panes_fault(s, s.panes@.len())
    } else {
        agents_fault(s, s.agents@.len())
    }
}

/// The name to show for an agent: its display name, else its own name, else its kind.
pub open spec fn shown_agent_name(info: FleetAgentInfo) -> Seq<char> {
    match (info.display_agent, info.name, info.agent) {
        (Some(display), _, _) => display@,
        (None, Some(name), _) => name@,
        (None, None, Some(agent)) => agent@,
        (None, None, None) => "agent"@,
    }
}

/// The agent kind that the label of an agent names.
pub open spec fn known_agent(known: Seq<AgentLabel>, info: FleetAgentInfo) -> Option<Agent> {
    match info.agent {
        Some(label) => agent_for_label(known, label@),
        None => None,
    }
}

/// Whether the label of a tab is shown: where its workspace has several tabs, and otherwise
/// unless the remote says that the label was not chosen.
pub open spec fn tab_label_shown(s: FleetSessionSnapshot, tab: FleetTabInfo) -> bool {
    ||| occurrences(tab_owners(s.tabs@), tab.workspace_id@, s.tabs@.len() as int) > 1
    ||| tab.custom_label != Some(false)
}

/// How an agent of a reported session is presented, where some labels of agent kinds are known.
pub open spec fn presented_agent(
    s: FleetSessionSnapshot,
    known: Seq<AgentLabel>,
    info: FleetAgentInfo,
) -> PresentationModel {
    let limit = MAX_REMOTE_TEXT_CHARS as nat;
    let workspace_position = workspace_ids(s.workspaces@).index_of(info.workspace_id@);
    let tab_position = tab_ids(s.tabs@).index_of(info.tab_id@);
    let pane_position = pane_ids(s.panes@).index_of(info.pane_id@);
    let tab = s.tabs@[tab_position];
    let pane = s.panes@[pane_position];
    let tab_rank = occurrences(tab_owners(s.tabs@), tab.workspace_id@, tab_position);
    let pane_rank = occurrences(pane_owners(s.panes@), pane.tab_id@, pane_position);
    PresentationModel {
        workspace_id: info.workspace_id@,
        tab_id: info.tab_id@,
        pane_id: info.pane_id@,
        workspace_label: sanitized(s.workspaces@[workspace_position].label@, limit),
        tab_label: if tab_label_shown(s, tab) {
            Some(sanitized(tab.label@, limit))
        } else {
            None
        },
        pane_label: sanitized_option(info.title, limit),
        terminal_title: sanitized_option(info.terminal_title, limit),
        terminal_title_stripped: sanitized_option(info.terminal_title_stripped, limit),
        agent_label: sanitized(shown_agent_name(info), limit),
        agent_kind_label: sanitized_option(info.agent, limit),
        agent: known_agent(known, info),
        state: state_for_status(info.agent_status).0,
        seen: state_for_status(info.agent_status).1,
        state_labels: sanitized_map(info.state_labels@, limit),
        tokens: sanitized_map(info.tokens@, MAX_REMOTE_TOKEN_CHARS as nat),
        display_order: (workspace_position as usize, tab_rank as usize, pane_rank as usize),
        order: (
            workspace_position as usize,
            tab.number,
            match pane.number {
                Some(number) => number,
                None => (pane_rank + 1) as usize,
            },
        ),
    }
}

/// What is taken over from a reported session that is accepted.
pub open spec fn accepted_snapshot(s: FleetSessionSnapshot, known: Seq<AgentLabel>) -> SnapshotModel {
    SnapshotModel {
        version: sanitized(s.version@, MAX_REMOTE_TEXT_CHARS as nat),
        protocol: s.protocol,
        agents: Seq::new(s.agents@.len(), |i: int| presented_agent(s, known, s.agents@[i])),
    }
}

/// A table that finds each of some identifiers at its position.
spec fn finds(table: Map<Seq<char>, usize>, ids: Seq<Seq<char>>) -> bool {
    &&& forall|id: Seq<char>| #[trigger] table.contains_key(id) <==> ids.contains(id)
    &&& forall|i: int| 0 <= i < ids.len() ==> table[#[trigger] ids[i]] == i
}

/// A table that counts the identifiers among the first `n`.
spec fn counts(table: Map<Seq<char>, usize>, ids: Seq<Seq<char>>, n: int) -> bool {
    forall|id: Seq<char>| #[trigger]
        occurrences(ids, id, n) == if table.contains_key(id) {
            table[id] as nat
        } else {
            0
        }
}

proof fn lemma_finds_more(table: Map<Seq<char>, usize>, ids: Seq<Seq<char>>, n: int)
    requires
        0 <= n < ids.len(),
        n <= usize::MAX,
        finds(table, ids.take(n)),
        !table.contains_key(ids[n]),
    ensures
        finds(table.insert(ids[n], n as usize), ids.take(n + 1)),
{
    let wider = table.insert(ids[n], n as usize);
    let before = ids.take(n);
    let after = ids.take(n + 1);
    assert forall|id: Seq<char>| #[trigger] wider.contains_key(id) <==> after.contains(id) by {
        if before.contains(id) {
            let j = before.index_of(id);
            assert(after[j] == id);
        }
        if id == ids[n] {
            assert(after[n] == id);
        }
        if after.contains(id) {
            let j = after.index_of(id);
            if j < n {
                assert(before[j] == id);
            }
        }
    }
    assert forall|i: int| 0 <= i < after.len() implies wider[#[trigger] after[i]] == i by {
        if i < n {
            assert(after[i] == before[i]);
            assert(before.contains(before[i]));
        }
    }
}

proof fn lemma_position(table: Map<Seq<char>, usize>, ids: Seq<Seq<char>>, id: Seq<char>)
    requires
        finds(table, ids),
        table.contains_key(id),
    ensures
        table[id] == ids.index_of(id),
        0 <= table[id] < ids.len(),
        ids[table[id] as int] == id,
{
    let j = ids.index_of(id);
    assert(ids[j] == id);
}

pub proof fn lemma_occurrences_bound(ids: Seq<Seq<char>>, id: Seq<char>, n: int)
    requires
        0 <= n,
    ensures
        occurrences(ids, id, n) <= n,
    decreases n,
{
    if n > 0 {
        lemma_occurrences_bound(ids, id, n - 1);
    }
}

fn too_many(limit: usize, what: &str) -> (error: String)
    ensures
        error@ == too_many_message(limit as nat, what@),
{
    let mut error = "remote snapshot contains more than ".to_owned();
    error.append(decimal_text(limit as u64).as_str());
    error.append(" ");
    error.append(what);
    error
}

fn check_shape(snapshot: &FleetSessionSnapshot) -> (result: Result<(), String>)
    ensures
        result is Ok <==> shape_fault(*snapshot) is None,
        result matches Err(error) ==> shape_fault(*snapshot) == Some(error@),
{
    if snapshot.protocol != PROTOCOL_VERSION {
        let mut error = "remote protocol ".to_owned();
        error.append(decimal_text(snapshot.protocol as u64).as_str());
        error.append(" is incompatible with local protocol ");
        error.append(decimal_text(PROTOCOL_VERSION as u64).as_str());
        return Err(error);
    }
    if snapshot.workspaces.len() > MAX_REMOTE_WORKSPACES {
        return Err(too_many(MAX_REMOTE_WORKSPACES, "workspaces"));
    }
    if snapshot.tabs.len() > MAX_REMOTE_TABS {
        return Err(too_many(MAX_REMOTE_TABS, "tabs"));
    }
    if snapshot.panes.len() > MAX_REMOTE_PANES {
        return Err(too_many(MAX_REMOTE_PANES, "panes"));
    }
    if snapshot.agents.len() > MAX_REMOTE_AGENTS {
        return Err(too_many(MAX_REMOTE_AGENTS, "agents"));
    }
    Ok(())
}

fn check_workspace(
    snapshot: &FleetSessionSnapshot,
    i: usize,
    table: &StringHashMap<usize>,
) -> (result: Result<(), String>)
    requires
        i < snapshot.workspaces@.len(),
        finds(table@, workspace_ids(snapshot.workspaces@).take(i as int)),
    ensures
        result is Ok <==> workspace_fault(*snapshot, i as int) is None,
        result matches Err(error) ==> workspace_fault(*snapshot, i as int) == Some(error@),
{
    let workspace = &snapshot.workspaces[i];
    validate_remote_id("workspace", workspace.workspace_id.as_str())?;
    if table.contains_key(workspace.workspace_id.as_str()) {
        return Err("remote snapshot contains duplicate workspace ids".to_owned());
    }
    Ok(())
}

fn index_workspaces(snapshot: &FleetSessionSnapshot) -> (result: Result<
    StringHashMap<usize>,
    String,
>)
    ensures
        match result {
            Ok(table) => {
                &&& workspaces_fault(*snapshot, snapshot.workspaces@.len()) is None
                &&& finds(table@, workspace_ids(snapshot.workspaces@))
            },
            Err(error) => workspaces_fault(*snapshot, snapshot.workspaces@.len()) == Some(error@),
        },
{
    let ghost s = *snapshot;
    let ghost ids = workspace_ids(s.workspaces@);
    let ghost fault = |i: int| workspace_fault(s, i);
    let mut table: StringHashMap<usize> = StringHashMap::new();
    let mut i: usize = 0;
    while i < snapshot.workspaces.len()
        invariant
            s == *snapshot,
            ids == workspace_ids(s.workspaces@),
            fault == (|i: int| workspace_fault(s, i)),
            i <= s.workspaces@.len(),
            first_fault(i as nat, fault) is None,
            finds(table@, ids.take(i as int)),
        decreases s.workspaces@.len() - i,
    {
        let checked = check_workspace(snapshot, i, &table);
        if let Err(error) = checked {
            proof {
                lemma_fault_stays((i + 1) as nat, s.workspaces@.len(), fault);
            }
            return Err(error);
        }
        proof {
            assert(ids[i as int] == s.workspaces@[i as int].workspace_id@);
            lemma_finds_more(table@, ids, i as int);
        }
        table.insert(snapshot.workspaces[i].workspace_id.clone(), i);
        i = i + 1;
    }
    proof {
        assert(ids.take(i as int) =~= ids);
    }
    Ok(table)
}

/// Where the tabs of a session stand.
struct TabIndex {
    table: StringHashMap<usize>,
    /// The number of tabs of each workspace.
    totals: StringHashMap<usize>,
    /// The number of earlier tabs in the workspace of each tab.
    ranks: Vec<usize>,
}

/// Each rank is the number of earlier items with the same owner.
spec fn ranked(ranks: Seq<usize>, owners: Seq<Seq<char>>, n: int) -> bool {
    &&& ranks.len() == n
    &&& forall|i: int| 0 <= i < n ==> #[trigger] ranks[i] == occurrences(owners, owners[i], i)
}

proof fn lemma_counts_more(
    table: Map<Seq<char>, usize>,
    ids: Seq<Seq<char>>,
    n: int,
    total: usize,
)
    requires
        0 <= n < ids.len(),
        counts(table, ids, n),
        total == occurrences(ids, ids[n], n) + 1,
    ensures
        counts(table.insert(ids[n], total), ids, n + 1),
{
    let wider = table.insert(ids[n], total);
    assert forall|id: Seq<char>| #[trigger]
        occurrences(ids, id, n + 1) == if wider.contains_key(id) {
            wider[id] as nat
        } else {
            0
        } by {
        assert(occurrences(ids, id, n) == if table.contains_key(id) {
            table[id] as nat
        } else {
            0
        });
    }
}

fn counted(table: &StringHashMap<usize>, id: &str) -> (n: usize)
    ensures
        n == if table@.contains_key(id@) {
            table@[id@]
        } else {
            0
        },
{
    match table.get(id) {
        Some(n) => *n,
        None => 0,
    }
}

fn check_tab(
    snapshot: &FleetSessionSnapshot,
    i: usize,
    workspaces: &StringHashMap<usize>,
    table: &StringHashMap<usize>,
) -> (result: Result<(), String>)
    requires
        i < snapshot.tabs@.len(),
        finds(workspaces@, workspace_ids(snapshot.workspaces@)),
        finds(table@, tab_ids(snapshot.tabs@).take(i as int)),
    ensures
        result is Ok <==> tab_fault(*snapshot, i as int) is None,
        result matches Err(error) ==> tab_fault(*snapshot, i as int) == Some(error@),
{
    let tab = &snapshot.tabs[i];
    validate_remote_id("tab", tab.tab_id.as_str())?;
    validate_remote_id("workspace", tab.workspace_id.as_str())?;
    if !workspaces.contains_key(tab.workspace_id.as_str()) {
        return Err("remote tab references an unknown workspace".to_owned());
    }
    if table.contains_key(tab.tab_id.as_str()) {
        return Err("remote snapshot contains duplicate tab ids".to_owned());
    }
    Ok(())
}

fn index_tabs(snapshot: &FleetSessionSnapshot, workspaces: &StringHashMap<usize>) -> (result: Result<
    TabIndex,
    String,
>)
    requires
        finds(workspaces@, workspace_ids(snapshot.workspaces@)),
    ensures
        match result {
            Ok(index) => {
                &&& tabs_fault(*snapshot, snapshot.tabs@.len()) is None
                &&& finds(index.table@, tab_ids(snapshot.tabs@))
                &&& counts(
                    index.totals@,
                    tab_owners(snapshot.tabs@),
                    snapshot.tabs@.len() as int,
                )
                &&& ranked(
                    index.ranks@,
                    tab_owners(snapshot.tabs@),
                    snapshot.tabs@.len() as int,
                )
            },
            Err(error) => tabs_fault(*snapshot, snapshot.tabs@.len()) == Some(error@),
        },
{
    let ghost s = *snapshot;
    let ghost ids = tab_ids(s.tabs@);
    let ghost owners = tab_owners(s.tabs@);
    let ghost fault = |i: int| tab_fault(s, i);
    let mut table: StringHashMap<usize> = StringHashMap::new();
    let mut totals: StringHashMap<usize> = StringHashMap::new();
    let mut ranks: Vec<usize> = Vec::new();
    let mut i: usize = 0;
    while i < snapshot.tabs.len()
        invariant
            s == *snapshot,
            ids == tab_ids(s.tabs@),
            owners == tab_owners(s.tabs@),
            fault == (|i: int| tab_fault(s, i)),
            finds(workspaces@, workspace_ids(s.workspaces@)),
            i <= s.tabs@.len(),
            first_fault(i as nat, fault) is None,
            finds(table@, ids.take(i as int)),
            counts(totals@, owners, i as int),
            ranked(ranks@, owners, i as int),
        decreases s.tabs@.len() - i,
    {
        let checked = check_tab(snapshot, i, workspaces, &table);
        if let Err(error) = checked {
            proof {
                lemma_fault_stays((i + 1) as nat, s.tabs@.len(), fault);
            }
            return Err(error);
        }
        let tab = &snapshot.tabs[i];
        let rank = counted(&totals, tab.workspace_id.as_str());
        proof {
            assert(ids[i as int] == tab.tab_id@);
            assert(owners[i as int] == tab.workspace_id@);
            assert(rank == occurrences(owners, owners[i as int], i as int));
            lemma_occurrences_bound(owners, owners[i as int], i as int);
            lemma_finds_more(table@, ids, i as int);
            lemma_counts_more(totals@, owners, i as int, (rank + 1) as usize);
        }
        totals.insert(tab.workspace_id.clone(), rank + 1);
        table.insert(tab.tab_id.clone(), i);
        ranks.push(rank);
        i = i + 1;
    }
    proof {
        assert(ids.take(i as int) =~= ids);
    }
    Ok(TabIndex { table, totals, ranks })
}

/// Where the panes of a session stand.
struct PaneIndex {
    table: StringHashMap<usize>,
    /// The number of earlier panes in the tab of each pane.
    ranks: Vec<usize>,
}

fn check_pane(
    snapshot: &FleetSessionSnapshot,
    i: usize,
    workspaces: &StringHashMap<usize>,
    tabs: &StringHashMap<usize>,
    table: &StringHashMap<usize>,
) -> (result: Result<(), String>)
    requires
        i < snapshot.panes@.len(),
        finds(workspaces@, workspace_ids(snapshot.workspaces@)),
        finds(tabs@, tab_ids(snapshot.tabs@)),
        finds(table@, pane_ids(snapshot.panes@).take(i as int)),
    ensures
        result is Ok <==> pane_fault(*snapshot, i as int) is None,
        result matches Err(error) ==> pane_fault(*snapshot, i as int) == Some(error@),
{
    let pane = &snapshot.panes[i];
    validate_remote_id("terminal", pane.terminal_id.as_str())?;
    validate_remote_id("workspace", pane.workspace_id.as_str())?;
    validate_remote_id("tab", pane.tab_id.as_str())?;
    validate_remote_id("pane", pane.pane_id.as_str())?;
    if !workspaces.contains_key(pane.workspace_id.as_str()) {
        return Err("remote pane references an unknown workspace".to_owned());
    }
    let tab = match tabs.get(pane.tab_id.as_str()) {
        Some(at) => {
            proof {
                lemma_position(tabs@, tab_ids(snapshot.tabs@), pane.tab_id@);
            }
            &snapshot.tabs[*at]
        },
        None => {
            return Err("remote pane references an unknown tab".to_owned());
        },
    };
    if !(tab.workspace_id == pane.workspace_id) {
        return Err("remote pane tab belongs to a different workspace".to_owned());
    }
    if table.contains_key(pane.pane_id.as_str()) {
        return Err("remote snapshot contains duplicate pane ids".to_owned());
    }
    Ok(())
}

fn index_panes(
    snapshot: &FleetSessionSnapshot,
    workspaces: &StringHashMap<usize>,
    tabs: &StringHashMap<usize>,
) -> (result: Result<PaneIndex, String>)
    requires
        finds(workspaces@, workspace_ids(snapshot.workspaces@)),
        finds(tabs@, tab_ids(snapshot.tabs@)),
    ensures
        match result {
            Ok(index) => {
                &&& panes_fault(*snapshot, snapshot.panes@.len()) is None
                &&& finds(index.table@, pane_ids(snapshot.panes@))
                &&& ranked(
                    index.ranks@,
                    pane_owners(snapshot.panes@),
                    snapshot.panes@.len() as int,
                )
            },
            Err(error) => panes_fault(*snapshot, snapshot.panes@.len()) == Some(error@),
        },
{
    let ghost s = *snapshot;
    let ghost ids = pane_ids(s.panes@);
    let ghost owners = pane_owners(s.panes@);
    let ghost fault = |i: int| pane_fault(s, i);
    let mut table: StringHashMap<usize> = StringHashMap::new();
    let mut totals: StringHashMap<usize> = StringHashMap::new();
    let mut ranks: Vec<usize> = Vec::new();
    let mut i: usize = 0;
    while i < snapshot.panes.len()
        invariant
            s == *snapshot,
            ids == pane_ids(s.panes@),
            owners == pane_owners(s.panes@),
            fault == (|i: int| pane_fault(s, i)),
            finds(workspaces@, workspace_ids(s.workspaces@)),
            finds(tabs@, tab_ids(s.tabs@)),
            i <= s.panes@.len(),
            first_fault(i as nat, fault) is None,
            finds(table@, ids.take(i as int)),
            counts(totals@, owners, i as int),
            ranked(ranks@, owners, i as int),
        decreases s.panes@.len() - i,
    {
        let checked = check_pane(snapshot, i, workspaces, tabs, &table);
        if let Err(error) = checked {
            proof {
                lemma_fault_stays((i + 1) as nat, s.panes@.len(), fault);
            }
            return Err(error);
        }
        let pane = &snapshot.panes[i];
        let rank = counted(&totals, pane.tab_id.as_str());
        proof {
            assert(ids[i as int] == pane.pane_id@);
            assert(owners[i as int] == pane.tab_id@);
            assert(rank == occurrences(owners, owners[i as int], i as int));
            lemma_occurrences_bound(owners, owners[i as int], i as int);
            lemma_finds_more(table@, ids, i as int);
            lemma_counts_more(totals@, owners, i as int, (rank + 1) as usize);
        }
        totals.insert(pane.tab_id.clone(), rank + 1);
        table.insert(pane.pane_id.clone(), i);
        ranks.push(rank);
        i = i + 1;
    }
    proof {
        assert(ids.take(i as int) =~= ids);
    }
    Ok(PaneIndex { table, ranks })
}

fn check_agent(
    snapshot: &FleetSessionSnapshot,
    i: usize,
    panes: &StringHashMap<usize>,
    taken: &StringHashMap<usize>,
) -> (result: Result<(), String>)
    requires
        i < snapshot.agents@.len(),
        finds(panes@, pane_ids(snapshot.panes@)),
        finds(taken@, agent_pane_ids(snapshot.agents@).take(i as int)),
    ensures
        result is Ok <==> agent_fault(*snapshot, i as int) is None,
        result matches Err(error) ==> agent_fault(*snapshot, i as int) == Some(error@),
{
    let info = &snapshot.agents[i];
    let labels = info.state_labels.len();
    let tokens = info.tokens.len();
    if labels > MAX_REMOTE_METADATA_ENTRIES_PER_AGENT || tokens
        > MAX_REMOTE_METADATA_ENTRIES_PER_AGENT - labels {
        let mut error = "remote agent metadata contains more than ".to_owned();
        error.append(decimal_text(MAX_REMOTE_METADATA_ENTRIES_PER_AGENT as u64).as_str());
        error.append(" entries");
        return Err(error);
    }
    validate_remote_id("terminal", info.terminal_id.as_str())?;
    validate_remote_id("workspace", info.workspace_id.as_str())?;
    validate_remote_id("tab", info.tab_id.as_str())?;
    validate_remote_id("pane", info.pane_id.as_str())?;
    if taken.contains_key(info.pane_id.as_str()) {
        return Err("remote snapshot contains duplicate agent pane ids".to_owned());
    }
    let pane = match panes.get(info.pane_id.as_str()) {
        Some(at) => {
            proof {
                lemma_position(panes@, pane_ids(snapshot.panes@), info.pane_id@);
            }
            &snapshot.panes[*at]
        },
        None => {
            return Err("remote agent references an unknown pane".to_owned());
        },
    };
    if !(pane.workspace_id == info.workspace_id) || !(pane.tab_id == info.tab_id) || !(
    pane.terminal_id == info.terminal_id) {
        return Err("remote agent identity disagrees with its pane".to_owned());
    }
    Ok(())
}

/// Where a session whose panes have no fault has an agent without one, the workspace and the tab
/// of the agent are known, and they belong together.
pub proof fn lemma_agent_placed(s: FleetSessionSnapshot, i: int)
    requires
        panes_fault(s, s.panes@.len()) is None,
        0 <= i < s.agents@.len(),
        agent_fault(s, i) is None,
    ensures
        workspace_ids(s.workspaces@).contains(s.agents@[i].workspace_id@),
        tab_ids(s.tabs@).contains(s.agents@[i].tab_id@),
        pane_ids(s.panes@).contains(s.agents@[i].pane_id@),
        s.tabs@[tab_ids(s.tabs@).index_of(s.agents@[i].tab_id@)].workspace_id@
            == s.agents@[i].workspace_id@,
        s.panes@[pane_ids(s.panes@).index_of(s.agents@[i].pane_id@)].tab_id@
            == s.agents@[i].tab_id@,
{
    let at = pane_ids(s.panes@).index_of(s.agents@[i].pane_id@);
    assert(pane_ids(s.panes@)[at] == s.agents@[i].pane_id@);
    lemma_no_fault(s.panes@.len(), |i: int| pane_fault(s, i), at);
    assert(pane_fault(s, at) is None);
}

fn shown_name(info: &FleetAgentInfo) -> (name: &str)
    ensures
        name@ == shown_agent_name(*info),
{
    match (&info.display_agent, &info.name, &info.agent) {
        (Some(display), _, _) => display.as_str(),
        (None, Some(name), _) => name.as_str(),
        (None, None, Some(agent)) => agent.as_str(),
        (None, None, None) => "agent",
    }
}

fn present_agent(
    snapshot: &FleetSessionSnapshot,
    known: &Vec<AgentLabel>,
    i: usize,
    workspaces: &StringHashMap<usize>,
    tabs: &TabIndex,
    panes: &PaneIndex,
) -> (presentation: RemoteAgentPresentation)
    requires
        shape_fault(*snapshot) is None,
        panes_fault(*snapshot, snapshot.panes@.len()) is None,
        i < snapshot.agents@.len(),
        agent_fault(*snapshot, i as int) is None,
        finds(workspaces@, workspace_ids(snapshot.workspaces@)),
        finds(tabs.table@, tab_ids(snapshot.tabs@)),
        counts(tabs.totals@, tab_owners(snapshot.tabs@), snapshot.tabs@.len() as int),
        ranked(tabs.ranks@, tab_owners(snapshot.tabs@), snapshot.tabs@.len() as int),
        finds(panes.table@, pane_ids(snapshot.panes@)),
        ranked(panes.ranks@, pane_owners(snapshot.panes@), snapshot.panes@.len() as int),
    ensures
        presentation@ == presented_agent(*snapshot, known@, snapshot.agents@[i as int]),
{
    let info = &snapshot.agents[i];
    let ghost s = *snapshot;
    proof {
        lemma_agent_placed(s, i as int);
        assert(workspaces@.contains_key(info.workspace_id@));
        assert(tabs.table@.contains_key(info.tab_id@));
        assert(panes.table@.contains_key(info.pane_id@));
        lemma_position(workspaces@, workspace_ids(s.workspaces@), info.workspace_id@);
        lemma_position(tabs.table@, tab_ids(s.tabs@), info.tab_id@);
        lemma_position(panes.table@, pane_ids(s.panes@), info.pane_id@);
    }
    let workspace_position = *workspaces.get(info.workspace_id.as_str()).unwrap();
    let tab_position = *tabs.table.get(info.tab_id.as_str()).unwrap();
    let pane_position = *panes.table.get(info.pane_id.as_str()).unwrap();
    let tab = &snapshot.tabs[tab_position];
    let pane = &snapshot.panes[pane_position];
    let tab_rank = tabs.ranks[tab_position];
    let pane_rank = panes.ranks[pane_position];
    let total = counted(&tabs.totals, tab.workspace_id.as_str());
    proof {
        assert(total == occurrences(tab_owners(s.tabs@), tab.workspace_id@, s.tabs@.len() as int));
        assert(tab_owners(s.tabs@)[tab_position as int] == tab.workspace_id@);
        assert(pane_owners(s.panes@)[pane_position as int] == pane.tab_id@);
        lemma_occurrences_bound(pane_owners(s.panes@), pane.tab_id@, pane_position as int);
    }
    let tab_label = if total > 1 || tab.custom_label.unwrap_or(true) {
        Some(sanitize_remote_text(tab.label.as_str(), MAX_REMOTE_TEXT_CHARS))
    } else {
        None
    };
    let public_pane_order = match pane.number {
        Some(number) => number,
        None => pane_rank + 1,
    };
    let agent = match &info.agent {
        Some(label) => parse_agent_label(known, label.as_str()),
        None => None,
    };
    let (state, seen) = presentation_state(info.agent_status);
    let presentation = RemoteAgentPresentation {
        workspace_id: info.workspace_id.clone(),
        tab_id: info.tab_id.clone(),
        pane_id: info.pane_id.clone(),
        workspace_label: sanitize_remote_text(
            snapshot.workspaces[workspace_position].label.as_str(),
            MAX_REMOTE_TEXT_CHARS,
        ),
        tab_label,
        pane_label: sanitize_remote_option(&info.title, MAX_REMOTE_TEXT_CHARS),
        terminal_title: sanitize_remote_option(&info.terminal_title, MAX_REMOTE_TEXT_CHARS),
        terminal_title_stripped: sanitize_remote_option(
            &info.terminal_title_stripped,
            MAX_REMOTE_TEXT_CHARS,
        ),
        agent_label: sanitize_remote_text(shown_name(info), MAX_REMOTE_TEXT_CHARS),
        agent_kind_label: sanitize_remote_option(&info.agent, MAX_REMOTE_TEXT_CHARS),
        agent,
        state,
        seen,
        state_labels: sanitize_remote_map(info.state_labels.clone(), MAX_REMOTE_TEXT_CHARS),
        tokens: sanitize_remote_map(info.tokens.clone(), MAX_REMOTE_TOKEN_CHARS),
        display_order: (workspace_position, tab_rank, pane_rank),
        order: (workspace_position, tab.number, public_pane_order),
    };
    proof {
        assert(presentation@ =~= presented_agent(s, known@, s.agents@[i as int]));
    }
    presentation
}

/// Accepts a session that a remote reports, or says why it is refused.
pub fn snapshot_for_fleet(snapshot: FleetSessionSnapshot, known: &Vec<AgentLabel>) -> (result:
    Result<RemoteAgentSnapshot, String>)
    ensures
        match result {
            Ok(accepted) => fleet_fault(snapshot) is None && accepted@ == accepted_snapshot(
                snapshot,
                known@,
            ),
            Err(error) => fleet_fault(snapshot) == Some(error@),
        },
{
    check_shape(&snapshot)?;
    let workspaces = index_workspaces(&snapshot)?;
    let tabs = index_tabs(&snapshot, &workspaces)?;
    let panes = index_panes(&snapshot, &workspaces, &tabs.table)?;

    let ghost s = snapshot;
    let ghost ids = agent_pane_ids(s.agents@);
    let ghost fault = |i: int| agent_fault(s, i);
    let mut taken: StringHashMap<usize> = StringHashMap::new();
    let mut agents: Vec<RemoteAgentPresentation> = Vec::with_capacity(snapshot.agents.len());
    let mut i: usize = 0;
    while i < snapshot.agents.len()
        invariant
            s == snapshot,
            ids == agent_pane_ids(s.agents@),
            fault == (|i: int| agent_fault(s, i)),
            shape_fault(s) is None,
            workspaces_fault(s, s.workspaces@.len()) is None,
            tabs_fault(s, s.tabs@.len()) is None,
            panes_fault(s, s.panes@.len()) is None,
            finds(workspaces@, workspace_ids(s.workspaces@)),
            finds(tabs.table@, tab_ids(s.tabs@)),
            counts(tabs.totals@, tab_owners(s.tabs@), s.tabs@.len() as int),
            ranked(tabs.ranks@, tab_owners(s.tabs@), s.tabs@.len() as int),
            finds(panes.table@, pane_ids(s.panes@)),
            ranked(panes.ranks@, pane_owners(s.panes@), s.panes@.len() as int),
            i <= s.agents@.len(),
            first_fault(i as nat, fault) is None,
            finds(taken@, ids.take(i as int)),
            agents@.len() == i,
            forall|j: int|
                0 <= j < i ==> (#[trigger] agents@[j])@ == presented_agent(
                    s,
                    known@,
                    s.agents@[j],
                ),
        decreases s.agents@.len() - i,
    {
        let checked = check_agent(&snapshot, i, &panes.table, &taken);
        if let Err(error) = checked {
            proof {
                lemma_fault_stays((i + 1) as nat, s.agents@.len(), fault);
            }
            return Err(error);
        }
        proof {
            assert(ids[i as int] == s.agents@[i as int].pane_id@);
            lemma_finds_more(taken@, ids, i as int);
        }
        taken.insert(snapshot.agents[i].pane_id.clone(), i);
        agents.push(present_agent(&snapshot, known, i, &workspaces, &tabs, &panes));
        i = i + 1;
    }
    let accepted = RemoteAgentSnapshot {
        version: sanitize_remote_text(snapshot.version.as_str(), MAX_REMOTE_TEXT_CHARS),
        protocol: snapshot.protocol,
        agents,
    };
    proof {
        assert(accepted@.agents =~= accepted_snapshot(s, known@).agents);
    }
    Ok(accepted)
}

/// What is said of an answer that is no session.
pub open spec fn response_fault(response: Result<FleetSuccessResponse, String>) -> Option<Seq<char>> {
    match response {
        Err(error) => Some("invalid remote snapshot response: "@ + error@),
        Ok(response) => match response.result {
            FleetResponseResult::Other => Some("remote response was not a session snapshot"@),
            FleetResponseResult::SessionSnapshot { snapshot } => fleet_fault(snapshot),
        },
    }
}

/// Accepts the decoded answer of a remote session. An answer that could not be decoded comes as
/// the decoder's complaint.
pub fn parse_snapshot_line(
    response: Result<FleetSuccessResponse, String>,
    known: &Vec<AgentLabel>,
) -> (result: Result<RemoteAgentSnapshot, String>)
    ensures
        result matches Err(error) ==> response_fault(response) == Some(error@),
        result matches Ok(accepted) ==> response_fault(response) is None && (response matches Ok(
            answer,
        ) && answer.result matches FleetResponseResult::SessionSnapshot { snapshot } && accepted@
            == accepted_snapshot(snapshot, known@)),
{
    match response {
        Err(error) => {
            let mut message = "invalid remote snapshot response: ".to_owned();
            message.append(error.as_str());
            Err(message)
        },
        Ok(response) => match response.result {
            FleetResponseResult::Other => Err(
                "remote response was not a session snapshot".to_owned(),
            ),
            FleetResponseResult::SessionSnapshot { snapshot } => snapshot_for_fleet(
                snapshot,
                known,
            ),
        },
    }
}

} // verus!
