//! What is known of the agents of all watched hosts.

use vstd::hash_map::StringHashMap;
use vstd::prelude::*;

use crate::ordered_map::{
    entries_map, key_position, keys_ascend, lemma_entry_found, lemma_key_found, lemma_same_entries,
    OrderedMap,
};
use crate::remote_agents::host::{
    RemoteAgentUpdate, RemoteAgentUpdateKind, RemoteHostRegistration, UpdateModel,
};
use crate::remote_agents::presentation::{
    option_text, same_option_text, same_presentation, PresentationModel, RemoteAgentPresentation,
    SnapshotModel,
};
use crate::remote_agents::registry_laws::{
    no_hosts_are_reported, reconciled_hosts_stay_reported, updated_hosts_stay_reported,
    updates_report_changes,
};
use crate::remote_agents::sanitize::{sanitize_remote_text, sanitized, MAX_REMOTE_TEXT_CHARS};
use crate::sorting::{
    lemma_item_sorted, lemma_sorted_item, lemma_sorted_untied, stable_sort, tied, total_preorder,
    untied,
};
use crate::text::{
    text_before, text_less, text_less_asymmetric, text_less_total, text_less_transitive,
};

verus! {

/// An agent as it was last reported, with the number of its last observed status change.
#[derive(Debug, PartialEq, Eq)]
pub struct StoredRemoteAgent {
    pub presentation: RemoteAgentPresentation,
    pub state_change_seq: Option<u64>,
}

/// A stored agent, as mathematical values.
#[verifier::ext_equal]
pub struct StoredAgentModel {
    pub presentation: PresentationModel,
    pub state_change_seq: Option<u64>,
}

impl View for StoredRemoteAgent {
    type V = StoredAgentModel;

    open spec fn view(&self) -> StoredAgentModel {
        StoredAgentModel {
            presentation: self.presentation@,
            state_change_seq: self.state_change_seq,
        }
    }
}

/// What is known of a watched host.
#[derive(Debug, PartialEq, Eq)]
pub struct RemoteHostState {
    pub label: String,
    pub generation: u64,
    pub order: usize,
    pub online: bool,
    pub version: Option<String>,
    pub protocol: Option<u32>,
    pub last_error: Option<String>,
    /// The agents of the host by the pane they run in.
    pub agents: OrderedMap<StoredRemoteAgent>,
}

/// A watched host, as mathematical values.
#[verifier::ext_equal]
pub struct HostModel {
    pub label: Seq<char>,
    pub generation: u64,
    pub order: usize,
    pub online: bool,
    pub version: Option<Seq<char>>,
    pub protocol: Option<u32>,
    pub last_error: Option<Seq<char>>,
    pub agents: Map<Seq<char>, StoredAgentModel>,
}

impl View for RemoteHostState {
    type V = HostModel;

    open spec fn view(&self) -> HostModel {
        HostModel {
            label: self.label@,
            generation: self.generation,
            order: self.order,
            online: self.online,
            version: option_text(self.version),
            protocol: self.protocol,
            last_error: option_text(self.last_error),
            agents: self.agents@,
        }
    }
}

/// The watched hosts by key.
pub type Hosts = Map<Seq<char>, HostModel>;

/// A host of which nothing has been heard yet.
pub open spec fn empty_host(registration: RemoteHostRegistration) -> HostModel {
    HostModel {
        label: registration.label@,
        generation: registration.generation,
        order: registration.order,
        online: false,
        version: None,
        protocol: None,
        last_error: None,
        agents: Map::empty(),
    }
}

/// A host of which nothing has been heard yet.
pub fn empty_host_state(registration: &RemoteHostRegistration) -> (host: RemoteHostState)
    ensures
        host@ == empty_host(*registration),
{
    RemoteHostState {
        label: registration.label.clone(),
        generation: registration.generation,
        order: registration.order,
        online: false,
        version: None,
        protocol: None,
        last_error: None,
        agents: OrderedMap::new(),
    }
}

/// The number after a given one, which stays at the largest.
pub open spec fn sequence_after(n: u64) -> u64 {
    if n == u64::MAX {
        u64::MAX
    } else {
        (n + 1) as u64
    }
}

/// Takes the next number of a sequence.
pub fn next_sequence(next: &mut u64) -> (taken: u64)
    ensures
        taken == sequence_after(*old(next)),
        *final(next) == taken,
{
    if *next < u64::MAX {
        *next = *next + 1;
    }
    *next
}

/// Whether a key is among some registrations.
pub open spec fn registered_key(registrations: Seq<RemoteHostRegistration>, key: Seq<char>) -> bool {
    exists|i: int| 0 <= i < registrations.len() && (#[trigger] registrations[i]).key@ == key
}

/// The hosts that are still registered.
pub open spec fn retained_hosts(hosts: Hosts, registrations: Seq<RemoteHostRegistration>) -> Hosts {
    Map::new(
        |key: Seq<char>| hosts.contains_key(key) && registered_key(registrations, key),
        |key: Seq<char>| hosts[key],
    )
}

/// A host after its registration: of the same generation it keeps what is known of it, under the
/// registered label and order; otherwise it starts anew.
pub open spec fn registered_host(hosts: Hosts, registration: RemoteHostRegistration) -> HostModel {
    let key = registration.key@;
    if hosts.contains_key(key) && hosts[key].generation == registration.generation {
        HostModel { label: registration.label@, order: registration.order, ..hosts[key] }
    } else {
        empty_host(registration)
    }
}

/// The hosts after the first `n` registrations.
pub open spec fn registered_hosts(
    hosts: Hosts,
    registrations: Seq<RemoteHostRegistration>,
    n: int,
) -> Hosts
    decreases n,
{
    if n <= 0 {
        hosts
    } else {
        let before = registered_hosts(hosts, registrations, n - 1);
        before.insert(
            registrations[n - 1].key@,
            registered_host(before, registrations[n - 1]),
        )
    }
}

/// The hosts after all registrations; hosts that are not registered are forgotten.
pub open spec fn reconciled_hosts(hosts: Hosts, registrations: Seq<RemoteHostRegistration>) -> Hosts {
    registered_hosts(
        retained_hosts(hosts, registrations),
        registrations,
        registrations.len() as int,
    )
}

/// Whether a registration changes a host or adds one.
pub open spec fn registration_changes(hosts: Hosts, registration: RemoteHostRegistration) -> bool {
    !hosts.contains_key(registration.key@) || hosts[registration.key@] != registered_host(
        hosts,
        registration,
    )
}

/// Whether one of the first `n` registrations changes a host or adds one.
pub open spec fn registrations_change(
    hosts: Hosts,
    registrations: Seq<RemoteHostRegistration>,
    n: int,
) -> bool {
    exists|i: int|
        0 <= i < n && registration_changes(
            registered_hosts(hosts, registrations, i),
            #[trigger] registrations[i],
        )
}

/// Whether some hosts are no longer registered.
pub open spec fn hosts_dropped(hosts: Hosts, registrations: Seq<RemoteHostRegistration>) -> bool {
    exists|key: Seq<char>| #[trigger] hosts.contains_key(key) && !registered_key(registrations, key)
}

/// Whether a reconciliation drops, adds or changes a host.
pub open spec fn reconcile_changes(hosts: Hosts, registrations: Seq<RemoteHostRegistration>) -> bool {
    hosts_dropped(hosts, registrations) || registrations_change(
        retained_hosts(hosts, registrations),
        registrations,
        registrations.len() as int,
    )
}

/// The status change number of a reported agent, and the last number in use afterwards. An agent
/// that was not known has none; one whose status stayed keeps its number; one whose status changed
/// gets the next.
pub open spec fn observed_sequence(
    stored: Map<Seq<char>, StoredAgentModel>,
    reported: PresentationModel,
    last: u64,
) -> (Option<u64>, u64) {
    let key = reported.pane_id;
    if !stored.contains_key(key) {
        (None, last)
    } else if stored[key].presentation.state == reported.state && stored[key].presentation.seen
        == reported.seen {
        (stored[key].state_change_seq, last)
    } else {
        (Some(sequence_after(last)), sequence_after(last))
    }
}

/// The agents to store for the first `n` reported ones, and the last number in use afterwards.
pub open spec fn observed_agents(
    stored: Map<Seq<char>, StoredAgentModel>,
    reported: Seq<PresentationModel>,
    n: int,
    last: u64,
) -> (Map<Seq<char>, StoredAgentModel>, u64)
    decreases n,
{
    if n <= 0 {
        (Map::empty(), last)
    } else {
        let before = observed_agents(stored, reported, n - 1, last);
        let presentation = reported[n - 1];
        let sequence = observed_sequence(stored, presentation, before.1);
        (
            before.0.insert(
                presentation.pane_id,
                StoredAgentModel { presentation, state_change_seq: sequence.0 },
            ),
            sequence.1,
        )
    }
}

/// A host after a report.
pub open spec fn host_with_snapshot(host: HostModel, snapshot: SnapshotModel, last: u64) -> HostModel {
    HostModel {
        online: true,
        version: Some(snapshot.version),
        protocol: Some(snapshot.protocol),
        last_error: None,
        agents: observed_agents(
            host.agents,
            snapshot.agents,
            snapshot.agents.len() as int,
            last,
        ).0,
        ..host
    }
}

/// A host that cannot be reached; what was known of its agents stays.
pub open spec fn host_offline(host: HostModel, error: Seq<char>) -> HostModel {
    HostModel {
        online: false,
        last_error: Some(sanitized(error, MAX_REMOTE_TEXT_CHARS as nat)),
        ..host
    }
}

/// A host after an update.
pub open spec fn updated_host(host: HostModel, kind: UpdateModel, last: u64) -> HostModel {
    match kind {
        UpdateModel::Snapshot(snapshot) => host_with_snapshot(host, snapshot, last),
        UpdateModel::Offline { error } => host_offline(host, error),
    }
}

/// The last status change number in use after an update.
pub open spec fn updated_sequence(host: HostModel, kind: UpdateModel, last: u64) -> u64 {
    match kind {
        UpdateModel::Snapshot(snapshot) => observed_agents(
            host.agents,
            snapshot.agents,
            snapshot.agents.len() as int,
            last,
        ).1,
        UpdateModel::Offline { .. } => last,
    }
}

/// Whether what is shown of a host differs after an update. The last error is not shown while a
/// host is online.
pub open spec fn update_changes(before: HostModel, after: HostModel) -> bool {
    ||| before.online != after.online
    ||| before.version != after.version
    ||| before.protocol != after.protocol
    ||| before.agents != after.agents
    ||| !after.online && before.last_error != after.last_error
}

/// Whether an update is for a watched host and its current generation.
pub open spec fn update_accepted(hosts: Hosts, host: Seq<char>, generation: u64) -> bool {
    hosts.contains_key(host) && hosts[host].generation == generation
}

/// An agent in the panel.
#[derive(Debug, PartialEq, Eq)]
pub struct RemotePanelAgent {
    pub host_key: String,
    pub host_label: String,
    pub host_order: usize,
    pub online: bool,
    pub presentation: RemoteAgentPresentation,
    pub state_change_seq: Option<u64>,
}

/// An agent in the panel, as mathematical values.
#[verifier::ext_equal]
pub struct PanelModel {
    pub host_key: Seq<char>,
    pub host_label: Seq<char>,
    pub host_order: usize,
    pub online: bool,
    pub presentation: PresentationModel,
    pub state_change_seq: Option<u64>,
}

impl View for RemotePanelAgent {
    type V = PanelModel;

    open spec fn view(&self) -> PanelModel {
        PanelModel {
            host_key: self.host_key@,
            host_label: self.host_label@,
            host_order: self.host_order,
            online: self.online,
            presentation: self.presentation@,
            state_change_seq: self.state_change_seq,
        }
    }
}

/// The panel row of an agent of a host.
pub open spec fn panel_row(key: Seq<char>, host: HostModel, agent: StoredAgentModel) -> PanelModel {
    PanelModel {
        host_key: key,
        host_label: host.label,
        host_order: host.order,
        online: host.online,
        presentation: agent.presentation,
        state_change_seq: agent.state_change_seq,
    }
}

/// Every agent is stored under the pane it runs in.
#[verifier::opaque]
pub open spec fn keyed_by_pane(hosts: Hosts) -> bool {
    forall|host: Seq<char>, pane: Seq<char>|
        hosts.contains_key(host) && #[trigger] hosts[host].agents.contains_key(pane)
            ==> hosts[host].agents[pane].presentation.pane_id == pane
}

/// Of a host that is online there is no error, and its version and protocol are known.
pub open spec fn reported_if_online(host: HostModel) -> bool {
    host.online ==> host.last_error is None && host.version is Some && host.protocol is Some
}

/// Every host that is online has reported itself.
#[verifier::opaque]
pub open spec fn online_hosts_reported(hosts: Hosts) -> bool {
    forall|key: Seq<char>| #[trigger] hosts.contains_key(key) ==> reported_if_online(hosts[key])
}

/// The agents of all watched hosts.
#[derive(Debug)]
pub struct RemoteAgentRegistry {
    hosts: OrderedMap<RemoteHostState>,
}

impl View for RemoteAgentRegistry {
    type V = Hosts;

    closed spec fn view(&self) -> Hosts {
        self.hosts@
    }
}

impl Default for RemoteAgentRegistry {
    fn default() -> (registry: Self)
        ensures
            registry@ == Map::<Seq<char>, HostModel>::empty(),
            keyed_by_pane(registry@),
            online_hosts_reported(registry@),
    {
        proof {
            lemma_none_keyed();
            no_hosts_are_reported();
        }
        RemoteAgentRegistry { hosts: OrderedMap::new() }
    }
}

fn registration_table(registrations: &[RemoteHostRegistration]) -> (table: StringHashMap<bool>)
    ensures
        forall|key: Seq<char>| #[trigger]
            table@.contains_key(key) <==> registered_key(registrations@, key),
{
    let mut table: StringHashMap<bool> = StringHashMap::new();
    let mut i: usize = 0;
    while i < registrations.len()
        invariant
            i <= registrations@.len(),
            forall|key: Seq<char>| #[trigger]
                table@.contains_key(key) <==> registered_key(registrations@.take(i as int), key),
        decreases registrations.len() - i,
    {
        let ghost before = table@;
        table.insert(registrations[i].key.0.clone(), true);
        proof {
            let shorter = registrations@.take(i as int);
            let longer = registrations@.take(i + 1);
            assert forall|key: Seq<char>| #[trigger]
                table@.contains_key(key) <==> registered_key(longer, key) by {
                if before.contains_key(key) {
                    let j = choose|j: int|
                        0 <= j < shorter.len() && (#[trigger] shorter[j]).key@ == key;
                    assert(longer[j].key@ == key);
                }
                if key == registrations@[i as int].key@ {
                    assert(longer[i as int].key@ == key);
                }
                if registered_key(longer, key) {
                    let j = choose|j: int|
                        0 <= j < longer.len() && (#[trigger] longer[j]).key@ == key;
                    if j < i {
                        assert(shorter[j].key@ == key);
                    }
                }
            }
        }
        i = i + 1;
    }
    proof {
        assert(registrations@.take(i as int) =~= registrations@);
    }
    table
}

/// Forgets the hosts that are no longer registered.
fn retain_registered(
    hosts: &mut OrderedMap<RemoteHostState>,
    registrations: &[RemoteHostRegistration],
) -> (dropped: bool)
    ensures
        final(hosts)@ == retained_hosts(old(hosts)@, registrations@),
        dropped == hosts_dropped(old(hosts)@, registrations@),
{
    let table = registration_table(registrations);
    let ghost before = hosts@;
    let ghost entries = hosts.entries();
    let n = hosts.len();
    let mut gone: Vec<String> = Vec::new();
    let mut i: usize = 0;
    while i < n
        invariant
            n == entries.len(),
            entries == hosts.entries(),
            before == hosts@,
            keys_ascend(entries),
            i <= n,
            forall|key: Seq<char>| #[trigger]
                table@.contains_key(key) <==> registered_key(registrations@, key),
            forall|j: int|
                0 <= j < gone@.len() ==> before.contains_key((#[trigger] gone@[j])@)
                    && !registered_key(registrations@, gone@[j]@),
            forall|j: int|
                0 <= j < i && !registered_key(registrations@, (#[trigger] entries[j]).0)
                    ==> exists|g: int| 0 <= g < gone@.len() && (#[trigger] gone@[g])@ == entries[j].0,
        decreases n - i,
    {
        let key = hosts.key_at(i);
        let ghost listed = gone@;
        proof {
            lemma_entry_found(entries, i as int);
        }
        if !table.contains_key(key.as_str()) {
            gone.push(key.clone());
        }
        proof {
            assert forall|j: int|
                0 <= j < i + 1 && !registered_key(
                    registrations@,
                    (#[trigger] entries[j]).0,
                ) implies exists|g: int|
                0 <= g < gone@.len() && (#[trigger] gone@[g])@ == entries[j].0 by {
                if j < i {
                    let g = choose|g: int|
                        0 <= g < listed.len() && (#[trigger] listed[g])@ == entries[j].0;
                    assert(gone@[g]@ == entries[j].0);
                } else {
                    assert(gone@[listed.len() as int]@ == entries[j].0);
                }
            }
        }
        i = i + 1;
    }
    let mut g: usize = 0;
    proof {
        assert(hosts@ =~= before);
    }
    while g < gone.len()
        invariant
            g <= gone.len(),
            forall|j: int|
                0 <= j < gone@.len() ==> before.contains_key((#[trigger] gone@[j])@)
                    && !registered_key(registrations@, gone@[j]@),
            forall|key: Seq<char>| #[trigger]
                hosts@.contains_key(key) <==> before.contains_key(key) && !(exists|j: int|
                    0 <= j < g && (#[trigger] gone@[j])@ == key),
            forall|key: Seq<char>| #[trigger] hosts@.contains_key(key) ==> hosts@[key] == before[key],
        decreases gone.len() - g,
    {
        let ghost earlier = hosts@;
        let _ = hosts.remove(gone[g].as_str());
        proof {
            assert forall|key: Seq<char>| #[trigger]
                hosts@.contains_key(key) <==> before.contains_key(key) && !(exists|j: int|
                    0 <= j < g + 1 && (#[trigger] gone@[j])@ == key) by {
                if key == gone@[g as int]@ {
                } else {
                    assert(hosts@.contains_key(key) == earlier.contains_key(key));
                    if exists|j: int| 0 <= j < g + 1 && (#[trigger] gone@[j])@ == key {
                        let j = choose|j: int| 0 <= j < g + 1 && (#[trigger] gone@[j])@ == key;
                        assert(j < g);
                    }
                }
            }
        }
        g = g + 1;
    }
    proof {
        assert forall|key: Seq<char>| #[trigger] hosts@.contains_key(key) <==> retained_hosts(
            before,
            registrations@,
        ).contains_key(key) by {
            if before.contains_key(key) && !registered_key(registrations@, key) {
                lemma_key_found(entries, key);
            }
        }
        assert(hosts@ =~= retained_hosts(before, registrations@));
        if gone@.len() > 0 {
            assert(before.contains_key(gone@[0]@));
        }
        if hosts_dropped(before, registrations@) {
            let key = choose|key: Seq<char>| #[trigger]
                before.contains_key(key) && !registered_key(registrations@, key);
            lemma_key_found(entries, key);
        }
    }
    gone.len() > 0
}

/// Registers one host.
fn register_host(
    hosts: &mut OrderedMap<RemoteHostState>,
    registration: &RemoteHostRegistration,
) -> (changed: bool)
    ensures
        final(hosts)@ == old(hosts)@.insert(
            registration.key@,
            registered_host(old(hosts)@, *registration),
        ),
        changed == registration_changes(old(hosts)@, *registration),
{
    let ghost before = hosts@;
    let ghost key = registration.key@;
    let mut changed = true;
    let host = match hosts.remove(registration.key.0.as_str()) {
        Some(host) => {
            let mut host = host;
            if host.generation == registration.generation {
                changed = !(host.label == registration.label) || host.order != registration.order;
                host.label = registration.label.clone();
                host.order = registration.order;
                host
            } else {
                empty_host_state(registration)
            }
        },
        None => empty_host_state(registration),
    };
    proof {
        assert(host@ =~= registered_host(before, *registration));
        assert(before.remove(key).insert(key, host@) =~= before.insert(key, host@));
    }
    hosts.insert(registration.key.0.clone(), host);
    changed
}

proof fn lemma_none_keyed()
    ensures
        keyed_by_pane(Map::<Seq<char>, HostModel>::empty()),
{
    reveal(keyed_by_pane);
}

/// Hosts that are retained still store every agent under its pane.
proof fn lemma_retained_keyed(hosts: Hosts, registrations: Seq<RemoteHostRegistration>)
    requires
        keyed_by_pane(hosts),
    ensures
        keyed_by_pane(retained_hosts(hosts, registrations)),
{
    reveal(keyed_by_pane);
    let retained = retained_hosts(hosts, registrations);
    assert forall|host: Seq<char>, pane: Seq<char>|
        retained.contains_key(host) && #[trigger] retained[host].agents.contains_key(
            pane,
        ) implies retained[host].agents[pane].presentation.pane_id == pane by {
        assert(hosts[host].agents.contains_key(pane));
    }
}

/// Reconciled hosts still store every agent under its pane.
proof fn lemma_registered_keyed(
    hosts: Hosts,
    registrations: Seq<RemoteHostRegistration>,
    n: int,
)
    requires
        keyed_by_pane(hosts),
        0 <= n <= registrations.len(),
    ensures
        keyed_by_pane(registered_hosts(hosts, registrations, n)),
    decreases n,
{
    reveal(keyed_by_pane);
    if n > 0 {
        lemma_registered_keyed(hosts, registrations, n - 1);
        let before = registered_hosts(hosts, registrations, n - 1);
        let after = registered_hosts(hosts, registrations, n);
        let key = registrations[n - 1].key@;
        assert forall|host: Seq<char>, pane: Seq<char>|
            after.contains_key(host) && #[trigger] after[host].agents.contains_key(pane) implies
            after[host].agents[pane].presentation.pane_id == pane by {
            assert(before.contains_key(host) && before[host].agents.contains_key(pane));
        }
    }
}

impl RemoteAgentRegistry {
    #[verifier::type_invariant]
    spec fn sound(self) -> bool {
        keyed_by_pane(self.hosts@) && online_hosts_reported(self.hosts@)
    }

    /// Takes over the hosts that are being watched; says whether anything changed.
    pub fn reconcile(&mut self, registrations: &[RemoteHostRegistration]) -> (changed: bool)
        ensures
            final(self)@ == reconciled_hosts(old(self)@, registrations@),
            changed == reconcile_changes(old(self)@, registrations@),
            keyed_by_pane(final(self)@),
            online_hosts_reported(final(self)@),
    {
        proof {
            use_type_invariant(&*self);
            lemma_none_keyed();
            no_hosts_are_reported();
        }
        let ghost before = self.hosts@;
        let mut hosts: OrderedMap<RemoteHostState> = OrderedMap::new();
        std::mem::swap(&mut hosts, &mut self.hosts);
        let mut changed = retain_registered(&mut hosts, registrations);
        let ghost retained = hosts@;
        let mut i: usize = 0;
        while i < registrations.len()
            invariant
                i <= registrations@.len(),
                retained == retained_hosts(before, registrations@),
                hosts@ == registered_hosts(retained, registrations@, i as int),
                changed == (hosts_dropped(before, registrations@) || registrations_change(
                    retained,
                    registrations@,
                    i as int,
                )),
            decreases registrations.len() - i,
        {
            let ghost earlier = registrations_change(retained, registrations@, i as int);
            let ghost here = hosts@;
            let changes = register_host(&mut hosts, &registrations[i]);
            proof {
                if earlier {
                    let j = choose|j: int|
                        0 <= j < i && registration_changes(
                            registered_hosts(retained, registrations@, j),
                            #[trigger] registrations@[j],
                        );
                    assert(registration_changes(
                        registered_hosts(retained, registrations@, j),
                        registrations@[j],
                    ));
                    assert(registrations_change(retained, registrations@, i + 1));
                }
                if changes {
                    assert(registration_changes(
                        registered_hosts(retained, registrations@, i as int),
                        registrations@[i as int],
                    ));
                }
            }
            if changes {
                changed = true;
            }
            i = i + 1;
        }
        proof {
            lemma_retained_keyed(before, registrations@);
            lemma_registered_keyed(retained, registrations@, registrations@.len() as int);
            reconciled_hosts_stay_reported(before, registrations@);
        }
        self.hosts = hosts;
        changed
    }
}

fn same_sequence(a: Option<u64>, b: Option<u64>) -> (r: bool)
    ensures
        r == (a == b),
{
    match (a, b) {
        (Some(a), Some(b)) => a == b,
        (None, None) => true,
        _ => false,
    }
}

/// Whether two hosts have the same agents.
fn same_agents(a: &OrderedMap<StoredRemoteAgent>, b: &OrderedMap<StoredRemoteAgent>) -> (r: bool)
    ensures
        r == (a@ == b@),
{
    let n = a.len();
    if n != b.len() {
        return false;
    }
    let mut i: usize = 0;
    while i < n
        invariant
            i <= n,
            n == a.entries().len(),
            n == b.entries().len(),
            keys_ascend(a.entries()),
            keys_ascend(b.entries()),
            a.entries().take(i as int) =~= b.entries().take(i as int),
        decreases n - i,
    {
        let left = a.value_at(i);
        let right = b.value_at(i);
        if !(*a.key_at(i) == *b.key_at(i)) || !same_presentation(
            &left.presentation,
            &right.presentation,
        ) || !same_sequence(left.state_change_seq, right.state_change_seq) {
            proof {
                if a@ == b@ {
                    lemma_same_entries(a.entries(), b.entries());
                }
            }
            return false;
        }
        proof {
            assert(left@ =~= right@);
            assert(a.entries().take(i + 1) =~= a.entries().take(i as int).push(
                a.entries()[i as int],
            ));
            assert(b.entries().take(i + 1) =~= b.entries().take(i as int).push(
                b.entries()[i as int],
            ));
        }
        i = i + 1;
    }
    proof {
        assert(a.entries() =~= a.entries().take(n as int));
        assert(b.entries() =~= b.entries().take(n as int));
    }
    true
}

/// The status change number of a reported agent.
fn observe_sequence(
    stored: &OrderedMap<StoredRemoteAgent>,
    reported: &RemoteAgentPresentation,
    last: &mut u64,
) -> (sequence: Option<u64>)
    ensures
        (sequence, *final(last)) == observed_sequence(stored@, reported@, *old(last)),
{
    match stored.get(reported.pane_id.as_str()) {
        Some(known) => {
            if known.presentation.state == reported.state && known.presentation.seen
                == reported.seen {
                known.state_change_seq
            } else {
                Some(next_sequence(last))
            }
        },
        None => None,
    }
}

/// The agents to store for reported ones.
fn observe_agents(
    stored: &OrderedMap<StoredRemoteAgent>,
    reported: Vec<RemoteAgentPresentation>,
    last: &mut u64,
) -> (agents: OrderedMap<StoredRemoteAgent>)
    ensures
        (agents@, *final(last)) == observed_agents(
            stored@,
            Seq::new(reported@.len(), |i: int| reported@[i]@),
            reported@.len() as int,
            *old(last),
        ),
{
    let ghost models = Seq::new(reported@.len(), |i: int| reported@[i]@);
    let ghost start = *last;
    let mut agents: OrderedMap<StoredRemoteAgent> = OrderedMap::new();
    for presentation in it: reported
        invariant
            it.seq() == reported@,
            models == Seq::new(reported@.len(), |i: int| reported@[i]@),
            (agents@, *last) == observed_agents(stored@, models, it.index(), start),
    {
        let state_change_seq = observe_sequence(stored, &presentation, last);
        let key = presentation.pane_id.clone();
        proof {
            assert(models[it.index()] == presentation@);
            assert((StoredRemoteAgent { presentation, state_change_seq })@ =~= (StoredAgentModel {
                presentation: presentation@,
                state_change_seq,
            }));
        }
        agents.insert(key, StoredRemoteAgent { presentation, state_change_seq });
    }
    agents
}

/// Observed agents are stored under their panes.
proof fn lemma_observed_keyed(
    stored: Map<Seq<char>, StoredAgentModel>,
    reported: Seq<PresentationModel>,
    n: int,
    last: u64,
    pane: Seq<char>,
)
    requires
        observed_agents(stored, reported, n, last).0.contains_key(pane),
    ensures
        observed_agents(stored, reported, n, last).0[pane].presentation.pane_id == pane,
    decreases n,
{
    if n > 0 && pane != reported[n - 1].pane_id {
        lemma_observed_keyed(stored, reported, n - 1, last, pane);
    }
}

/// Updated hosts still store every agent under its pane.
proof fn lemma_updated_keyed(hosts: Hosts, key: Seq<char>, kind: UpdateModel, last: u64)
    requires
        keyed_by_pane(hosts),
        hosts.contains_key(key),
    ensures
        keyed_by_pane(hosts.insert(key, updated_host(hosts[key], kind, last))),
{
    reveal(keyed_by_pane);
    let after = hosts.insert(key, updated_host(hosts[key], kind, last));
    assert forall|host: Seq<char>, pane: Seq<char>|
        after.contains_key(host) && #[trigger] after[host].agents.contains_key(pane) implies
        after[host].agents[pane].presentation.pane_id == pane by {
        if host == key {
            match kind {
                UpdateModel::Snapshot(snapshot) => {
                    lemma_observed_keyed(
                        hosts[key].agents,
                        snapshot.agents,
                        snapshot.agents.len() as int,
                        last,
                        pane,
                    );
                },
                UpdateModel::Offline { error } => {
                    assert(hosts[host].agents.contains_key(pane));
                },
            }
        } else {
            assert(hosts[host].agents.contains_key(pane));
        }
    }
}

/// Applies an update to its host.
fn update_host(host: &mut RemoteHostState, kind: RemoteAgentUpdateKind, last: &mut u64) -> (changed:
    bool)
    ensures
        final(host)@ == updated_host(old(host)@, kind@, *old(last)),
        *final(last) == updated_sequence(old(host)@, kind@, *old(last)),
        changed == update_changes(old(host)@, final(host)@),
{
    let ghost before = host@;
    let ghost start = *last;
    match kind {
        RemoteAgentUpdateKind::Offline { error } => {
            let last_error = Some(sanitize_remote_text(error.as_str(), MAX_REMOTE_TEXT_CHARS));
            let changed = host.online || !same_option_text(&host.last_error, &last_error);
            host.online = false;
            host.last_error = last_error;
            proof {
                assert(host@ =~= host_offline(before, error@));
            }
            changed
        },
        RemoteAgentUpdateKind::Snapshot(snapshot) => {
            let ghost model = snapshot@;
            let agents = observe_agents(&host.agents, snapshot.agents, last);
            let version = Some(snapshot.version);
            let same_protocol = match host.protocol {
                Some(protocol) => protocol == snapshot.protocol,
                None => false,
            };
            let changed = !host.online || !same_option_text(&host.version, &version)
                || !same_protocol || !same_agents(&host.agents, &agents);
            host.online = true;
            host.version = version;
            host.protocol = Some(snapshot.protocol);
            host.last_error = None;
            host.agents = agents;
            proof {
                assert(host@ =~= host_with_snapshot(before, model, start));
            }
            changed
        },
    }
}

impl RemoteAgentRegistry {
    /// Takes over an update. Updates for hosts that are not watched and updates of another
    /// generation are passed over. Says whether anything that is known of the hosts changed.
    pub fn apply_update(
        &mut self,
        update: RemoteAgentUpdate,
        next_state_change_seq: &mut u64,
    ) -> (changed: bool)
        ensures
            update_accepted(old(self)@, update.host@, update.generation) ==> {
                let before = old(self)@[update.host@];
                let after = updated_host(before, update.kind@, *old(next_state_change_seq));
                &&& final(self)@ == old(self)@.insert(update.host@, after)
                &&& *final(next_state_change_seq) == updated_sequence(
                    before,
                    update.kind@,
                    *old(next_state_change_seq),
                )
                &&& changed == update_changes(before, after)
            },
            !update_accepted(old(self)@, update.host@, update.generation) ==> {
                &&& final(self)@ == old(self)@
                &&& *final(next_state_change_seq) == *old(next_state_change_seq)
                &&& !changed
            },
            changed <==> final(self)@ != old(self)@,
            keyed_by_pane(final(self)@),
            online_hosts_reported(final(self)@),
    {
        proof {
            use_type_invariant(&*self);
            lemma_none_keyed();
            no_hosts_are_reported();
        }
        let mut update = update;
        let generation = match self.hosts.get(update.host.0.as_str()) {
            Some(host) => host.generation,
            None => {
                return false;
            },
        };
        if generation != update.generation {
            return false;
        }
        let ghost before = self.hosts@;
        let ghost key = update.host@;
        let ghost last = *next_state_change_seq;
        let mut kind = RemoteAgentUpdateKind::Offline { error: String::new() };
        std::mem::swap(&mut kind, &mut update.kind);
        let ghost model = kind@;
        let mut hosts: OrderedMap<RemoteHostState> = OrderedMap::new();
        std::mem::swap(&mut hosts, &mut self.hosts);
        let mut changed = false;
        if let Some(host) = hosts.remove(update.host.0.as_str()) {
            let mut host = host;
            changed = update_host(&mut host, kind, next_state_change_seq);
            proof {
                assert(before.remove(key).insert(key, host@) =~= before.insert(key, host@));
                lemma_updated_keyed(before, key, model, last);
                updated_hosts_stay_reported(before, key, model, last);
                updates_report_changes(before, key, model, last);
            }
            hosts.insert(update.host.0.clone(), host);
        }
        self.hosts = hosts;
        changed
    }
}

/// Lexicographic order of three numbers.
pub open spec fn triple_less(a: (usize, usize, usize), b: (usize, usize, usize)) -> bool {
    a.0 < b.0 || (a.0 == b.0 && (a.1 < b.1 || (a.1 == b.1 && a.2 < b.2)))
}

/// The order of the panel: by the order of the hosts and, among hosts of the same order, by their
/// keys; then by the display order and, where that is the same, by the panes of the agents.
pub open spec fn panel_less(a: PanelModel, b: PanelModel) -> bool {
    ||| a.host_order < b.host_order
    ||| a.host_order == b.host_order && text_less(a.host_key, b.host_key)
    ||| a.host_order == b.host_order && a.host_key == b.host_key && triple_less(
        a.presentation.display_order,
        b.presentation.display_order,
    )
    ||| a.host_order == b.host_order && a.host_key == b.host_key && a.presentation.display_order
        == b.presentation.display_order && text_less(
        a.presentation.pane_id,
        b.presentation.pane_id,
    )
}

/// The panel shows a row: it is that of an agent of a watched host.
pub open spec fn panel_shows(hosts: Hosts, row: PanelModel) -> bool {
    let host = row.host_key;
    let pane = row.presentation.pane_id;
    &&& hosts.contains_key(host)
    &&& hosts[host].agents.contains_key(pane)
    &&& row == panel_row(host, hosts[host], hosts[host].agents[pane])
}

spec fn panel_order() -> spec_fn(RemotePanelAgent, RemotePanelAgent) -> bool {
    |a: RemotePanelAgent, b: RemotePanelAgent| !panel_less(b@, a@)
}

proof fn lemma_panel_trichotomy(a: PanelModel, b: PanelModel)
    ensures
        !(panel_less(a, b) && panel_less(b, a)),
        panel_less(a, b) || panel_less(b, a) || (a.host_key == b.host_key
            && a.presentation.pane_id == b.presentation.pane_id),
{
    text_less_total(a.host_key, b.host_key);
    text_less_asymmetric(a.host_key, b.host_key);
    text_less_total(a.presentation.pane_id, b.presentation.pane_id);
    text_less_asymmetric(a.presentation.pane_id, b.presentation.pane_id);
}

proof fn lemma_panel_chain(a: PanelModel, b: PanelModel, c: PanelModel)
    requires
        !panel_less(b, a),
        !panel_less(c, b),
    ensures
        !panel_less(c, a),
{
    text_less_total(a.host_key, b.host_key);
    text_less_total(b.host_key, c.host_key);
    text_less_total(a.host_key, c.host_key);
    text_less_asymmetric(a.host_key, b.host_key);
    text_less_asymmetric(b.host_key, c.host_key);
    text_less_asymmetric(a.host_key, c.host_key);
    text_less_total(a.presentation.pane_id, b.presentation.pane_id);
    text_less_total(b.presentation.pane_id, c.presentation.pane_id);
    text_less_total(a.presentation.pane_id, c.presentation.pane_id);
    text_less_asymmetric(a.presentation.pane_id, b.presentation.pane_id);
    text_less_asymmetric(b.presentation.pane_id, c.presentation.pane_id);
    text_less_asymmetric(a.presentation.pane_id, c.presentation.pane_id);
    if text_less(a.host_key, b.host_key) && text_less(b.host_key, c.host_key) {
        text_less_transitive(a.host_key, b.host_key, c.host_key);
    }
    if text_less(a.presentation.pane_id, b.presentation.pane_id) && text_less(
        b.presentation.pane_id,
        c.presentation.pane_id,
    ) {
        text_less_transitive(
            a.presentation.pane_id,
            b.presentation.pane_id,
            c.presentation.pane_id,
        );
    }
}

proof fn lemma_panel_preorder()
    ensures
        total_preorder(panel_order()),
{
    let le = panel_order();
    assert forall|a: RemotePanelAgent, b: RemotePanelAgent| #[trigger] le(a, b) || le(b, a) by {
        lemma_panel_trichotomy(a@, b@);
    }
    assert forall|a: RemotePanelAgent, b: RemotePanelAgent, c: RemotePanelAgent| #[trigger]
        le(a, b) && #[trigger] le(b, c) implies le(a, c) by {
        lemma_panel_chain(a@, b@, c@);
    }
}

fn triple_before(a: (usize, usize, usize), b: (usize, usize, usize)) -> (r: bool)
    ensures
        r == triple_less(a, b),
{
    a.0 < b.0 || (a.0 == b.0 && (a.1 < b.1 || (a.1 == b.1 && a.2 < b.2)))
}

/// Whether one row stands before another in the panel.
fn panel_before(a: &RemotePanelAgent, b: &RemotePanelAgent) -> (r: bool)
    ensures
        r == panel_less(a@, b@),
{
    if a.host_order != b.host_order {
        return a.host_order < b.host_order;
    }
    if !(a.host_key == b.host_key) {
        return text_before(a.host_key.as_str(), b.host_key.as_str());
    }
    let left = a.presentation.display_order;
    let right = b.presentation.display_order;
    proof {
        text_less_asymmetric(a.host_key@, a.host_key@);
    }
    if left.0 != right.0 || left.1 != right.1 || left.2 != right.2 {
        return triple_before(left, right);
    }
    text_before(a.presentation.pane_id.as_str(), b.presentation.pane_id.as_str())
}

/// Adds the rows of a host, one for each of the panes that are given back.
fn push_host_rows(rows: &mut Vec<RemotePanelAgent>, key: &String, host: &RemoteHostState) -> (panes:
    Ghost<Seq<Seq<char>>>)
    ensures
        panes@.no_duplicates(),
        forall|pane: Seq<char>| #[trigger]
            panes@.contains(pane) <==> host@.agents.contains_key(pane),
        final(rows)@.len() == old(rows)@.len() + panes@.len(),
        forall|i: int| 0 <= i < old(rows)@.len() ==> #[trigger] final(rows)@[i] == old(rows)@[i],
        forall|i: int|
            old(rows)@.len() <= i < final(rows)@.len() ==> (#[trigger] final(rows)@[i])@
                == panel_row(key@, host@, host@.agents[panes@[i - old(rows)@.len()]]),
{
    let ghost before = rows@;
    let ghost entries = host.agents.entries();
    let ghost panes = Seq::new(entries.len(), |i: int| entries[i].0);
    let n = host.agents.len();
    let mut i: usize = 0;
    while i < n
        invariant
            n == entries.len(),
            entries == host.agents.entries(),
            keys_ascend(entries),
            panes == Seq::new(entries.len(), |i: int| entries[i].0),
            i <= n,
            rows@.len() == before.len() + i,
            forall|j: int| 0 <= j < before.len() ==> #[trigger] rows@[j] == before[j],
            forall|j: int|
                before.len() <= j < rows@.len() ==> (#[trigger] rows@[j])@ == panel_row(
                    key@,
                    host@,
                    host@.agents[panes[j - before.len()]],
                ),
        decreases n - i,
    {
        let agent = host.agents.value_at(i);
        let row = RemotePanelAgent {
            host_key: key.clone(),
            host_label: host.label.clone(),
            host_order: host.order,
            online: host.online,
            presentation: agent.presentation.clone(),
            state_change_seq: agent.state_change_seq,
        };
        proof {
            lemma_entry_found(entries, i as int);
            assert(row@ =~= panel_row(key@, host@, host@.agents[panes[i as int]]));
        }
        rows.push(row);
        i = i + 1;
    }
    proof {
        assert(panes.no_duplicates()) by {
            assert forall|a: int, b: int|
                0 <= a < panes.len() && 0 <= b < panes.len() && a != b implies panes[a]
                != panes[b] by {
                lemma_entry_found(entries, a);
                lemma_entry_found(entries, b);
            }
        }
        assert forall|pane: Seq<char>| #[trigger]
            panes.contains(pane) <==> host@.agents.contains_key(pane) by {
            if host@.agents.contains_key(pane) {
                lemma_key_found(entries, pane);
                assert(panes[key_position(entries, pane)] == pane);
            }
            if panes.contains(pane) {
                let j = panes.index_of(pane);
                lemma_entry_found(entries, j);
            }
        }
    }
    Ghost(panes)
}

/// The agent of a host that a panel row is for.
spec fn row_at(hosts: Hosts, tag: (Seq<char>, Seq<char>)) -> PanelModel {
    panel_row(tag.0, hosts[tag.0], hosts[tag.0].agents[tag.1])
}

/// The rows are those of the tagged agents, and every agent of the first `n` hosts has one.
spec fn rows_cover(
    hosts: Hosts,
    entries: Seq<(Seq<char>, HostModel)>,
    n: int,
    rows: Seq<RemotePanelAgent>,
    tags: Seq<(Seq<char>, Seq<char>)>,
) -> bool {
    &&& rows.len() == tags.len()
    &&& forall|i: int|
        0 <= i < tags.len() ==> hosts.contains_key((#[trigger] tags[i]).0)
            && hosts[tags[i].0].agents.contains_key(tags[i].1) && rows[i]@ == row_at(hosts, tags[i])
    &&& forall|i: int, j: int|
        0 <= i < j < tags.len() ==> #[trigger] tags[i] != #[trigger] tags[j]
    &&& forall|i: int|
        0 <= i < tags.len() ==> exists|h: int|
            0 <= h < n && (#[trigger] entries[h]).0 == (#[trigger] tags[i]).0
    &&& forall|h: int, pane: Seq<char>|
        0 <= h < n && (#[trigger] entries[h]).1.agents.contains_key(pane) ==> #[trigger] tags.contains(
            (entries[h].0, pane),
        )
}

proof fn lemma_rows_cover_more(
    hosts: Hosts,
    entries: Seq<(Seq<char>, HostModel)>,
    n: int,
    rows: Seq<RemotePanelAgent>,
    tags: Seq<(Seq<char>, Seq<char>)>,
    longer: Seq<RemotePanelAgent>,
    panes: Seq<Seq<char>>,
)
    requires
        keys_ascend(entries),
        hosts == entries_map(entries),
        0 <= n < entries.len(),
        rows_cover(hosts, entries, n, rows, tags),
        panes.no_duplicates(),
        forall|pane: Seq<char>| #[trigger]
            panes.contains(pane) <==> entries[n].1.agents.contains_key(pane),
        longer.len() == rows.len() + panes.len(),
        forall|i: int| 0 <= i < rows.len() ==> #[trigger] longer[i] == rows[i],
        forall|i: int|
            rows.len() <= i < longer.len() ==> (#[trigger] longer[i])@ == panel_row(
                entries[n].0,
                entries[n].1,
                entries[n].1.agents[panes[i - rows.len()]],
            ),
    ensures
        rows_cover(
            hosts,
            entries,
            n + 1,
            longer,
            tags + Seq::new(panes.len(), |i: int| (entries[n].0, panes[i])),
        ),
{
    let added = Seq::new(panes.len(), |i: int| (entries[n].0, panes[i]));
    let all = tags + added;
    let k = tags.len() as int;
    lemma_entry_found(entries, n);
    assert forall|i: int| 0 <= i < all.len() implies hosts.contains_key((#[trigger] all[i]).0)
        && hosts[all[i].0].agents.contains_key(all[i].1) && longer[i]@ == row_at(hosts, all[i]) by {
        if i < k {
            assert(all[i] == tags[i]);
        } else {
            assert(all[i] == added[i - k]);
            assert(panes.contains(panes[i - k]));
        }
    }
    assert forall|i: int, j: int| 0 <= i < j < all.len() implies #[trigger] all[i]
        != #[trigger] all[j] by {
        if j < k {
            assert(all[i] == tags[i] && all[j] == tags[j]);
        } else if i < k {
            assert(all[i] == tags[i]);
            let h = choose|h: int| 0 <= h < n && (#[trigger] entries[h]).0 == tags[i].0;
            lemma_entry_found(entries, h);
            assert(all[j] == added[j - k]);
        } else {
            assert(all[i] == added[i - k] && all[j] == added[j - k]);
        }
    }
    assert forall|i: int| 0 <= i < all.len() implies exists|h: int|
        0 <= h < n + 1 && (#[trigger] entries[h]).0 == (#[trigger] all[i]).0 by {
        if i < k {
            assert(all[i] == tags[i]);
            let h = choose|h: int| 0 <= h < n && (#[trigger] entries[h]).0 == tags[i].0;
            assert(entries[h].0 == all[i].0);
        } else {
            assert(all[i] == added[i - k]);
            assert(entries[n].0 == all[i].0);
        }
    }
    assert forall|h: int, pane: Seq<char>|
        0 <= h < n + 1 && (#[trigger] entries[h]).1.agents.contains_key(
            pane,
        ) implies #[trigger] all.contains((entries[h].0, pane)) by {
        if h < n {
            assert(tags.contains((entries[h].0, pane)));
            let i = tags.index_of((entries[h].0, pane));
            assert(all[i] == (entries[h].0, pane));
        } else {
            assert(panes.contains(pane));
            let i = panes.index_of(pane);
            assert(all[k + i] == (entries[h].0, pane));
        }
    }
}

/// The rows of the panel, as mathematical values.
pub open spec fn row_models(rows: Seq<RemotePanelAgent>) -> Seq<PanelModel> {
    rows.map_values(|row: RemotePanelAgent| row@)
}

/// Rows are in the order of the panel.
pub open spec fn panel_ascends(rows: Seq<PanelModel>) -> bool {
    forall|i: int, j: int|
        0 <= i < j < rows.len() ==> panel_less(#[trigger] rows[i], #[trigger] rows[j])
}

/// The rows of the panel: one for each agent of each watched host, in the order of the panel.
pub open spec fn is_panel(rows: Seq<PanelModel>, hosts: Hosts) -> bool {
    &&& panel_ascends(rows)
    &&& forall|row: PanelModel| #[trigger] rows.contains(row) <==> panel_shows(hosts, row)
}

proof fn lemma_same_rows(a: Seq<PanelModel>, b: Seq<PanelModel>)
    requires
        panel_ascends(a),
        panel_ascends(b),
        forall|row: PanelModel| #[trigger] a.contains(row) <==> b.contains(row),
    ensures
        a == b,
    decreases a.len(),
{
    if a.len() > 0 {
        assert(a.contains(a[0]));
        assert(b.contains(a[0]));
        assert(b.contains(b[0]));
        assert(a.contains(b[0]));
        let i = choose|i: int| 0 <= i < a.len() && a[i] == b[0];
        let j = choose|j: int| 0 <= j < b.len() && b[j] == a[0];
        if i > 0 && j > 0 {
            assert(panel_less(a[0], a[i]));
            assert(panel_less(b[0], b[j]));
            lemma_panel_trichotomy(a[0], b[0]);
        }
        assert(a[0] == b[0]);
        let more_a = a.drop_first();
        let more_b = b.drop_first();
        assert forall|row: PanelModel| #[trigger] more_a.contains(row) <==> more_b.contains(
            row,
        ) by {
            if more_a.contains(row) {
                let k = choose|k: int| 0 <= k < more_a.len() && more_a[k] == row;
                assert(a[k + 1] == row);
                assert(a.contains(row));
                let m = choose|m: int| 0 <= m < b.len() && b[m] == row;
                assert(panel_less(a[0], a[k + 1]));
                lemma_panel_trichotomy(row, row);
                assert(m > 0);
                assert(more_b[m - 1] == row);
            }
            if more_b.contains(row) {
                let k = choose|k: int| 0 <= k < more_b.len() && more_b[k] == row;
                assert(b[k + 1] == row);
                assert(a.contains(row));
                let m = choose|m: int| 0 <= m < a.len() && a[m] == row;
                assert(panel_less(b[0], b[k + 1]));
                lemma_panel_trichotomy(row, row);
                assert(m > 0);
                assert(more_a[m - 1] == row);
            }
        }
        lemma_same_rows(more_a, more_b);
        assert(a =~= seq![a[0]] + more_a);
        assert(b =~= seq![b[0]] + more_b);
    } else if b.len() > 0 {
        assert(b.contains(b[0]));
        assert(a.contains(b[0]));
    }
}

/// The watched hosts and their agents determine the panel.
pub proof fn panel_is_unique(a: Seq<PanelModel>, b: Seq<PanelModel>, hosts: Hosts)
    requires
        is_panel(a, hosts),
        is_panel(b, hosts),
    ensures
        a == b,
{
    assert forall|row: PanelModel| #[trigger] a.contains(row) <==> b.contains(row) by {
        assert(a.contains(row) <==> panel_shows(hosts, row));
        assert(b.contains(row) <==> panel_shows(hosts, row));
    }
    lemma_same_rows(a, b);
}

impl RemoteAgentRegistry {
    /// The rows of the panel: one for each agent of each watched host, in the order of the panel.
    pub fn panel_agents(&self) -> (rows: Vec<RemotePanelAgent>)
        ensures
            is_panel(row_models(rows@), self@),
            keyed_by_pane(self@),
    {
        let mut rows: Vec<RemotePanelAgent> = Vec::new();
        let n = self.hosts.len();
        let ghost hosts = self.hosts@;
        let ghost entries = self.hosts.entries();
        let ghost mut tags: Seq<(Seq<char>, Seq<char>)> = Seq::empty();
        let mut i: usize = 0;
        while i < n
            invariant
                n == entries.len(),
                entries == self.hosts.entries(),
                hosts == self.hosts@,
                keys_ascend(entries),
                i <= n,
                rows_cover(hosts, entries, i as int, rows@, tags),
            decreases n - i,
        {
            let ghost before = rows@;
            let host = self.hosts.value_at(i);
            let panes = push_host_rows(&mut rows, self.hosts.key_at(i), host);
            proof {
                lemma_rows_cover_more(hosts, entries, i as int, before, tags, rows@, panes@);
                tags = tags + Seq::new(panes@.len(), |j: int| (entries[i as int].0, panes@[j]));
            }
            i = i + 1;
        }
        let ghost unsorted = rows@;
        let ghost le = panel_order();
        proof {
            use_type_invariant(self);
            lemma_panel_preorder();
        }
        let before = |a: &RemotePanelAgent, b: &RemotePanelAgent| -> (r: bool)
            ensures
                r == !panel_less(b@, a@),
            { !panel_before(b, a) };
        let sorted = stable_sort(rows, &before, Ghost(le));
        proof {
            lemma_rows_untied(hosts, entries, n as int, unsorted, tags);
            lemma_sorted_untied(sorted@, unsorted, le);
            let models = row_models(sorted@);
            assert forall|i: int, j: int| 0 <= i < j < models.len() implies panel_less(
                #[trigger] models[i],
                #[trigger] models[j],
            ) by {
                assert(le(sorted@[i], sorted@[j]));
                assert(!tied(le, sorted@[i], sorted@[j]));
            }
            assert forall|row: PanelModel| #[trigger]
                models.contains(row) <==> panel_shows(hosts, row) by {
                if models.contains(row) {
                    let i = choose|i: int| 0 <= i < models.len() && models[i] == row;
                    lemma_sorted_item(sorted@, unsorted, le, i);
                    let j = unsorted.index_of(sorted@[i]);
                    lemma_row_shown(hosts, entries, n as int, unsorted, tags, j);
                }
                if panel_shows(hosts, row) {
                    let j = lemma_row_found(hosts, entries, unsorted, tags, row);
                    lemma_item_sorted(sorted@, unsorted, le, j);
                    let i = sorted@.index_of(unsorted[j]);
                    assert(models[i] == row);
                }
            }
        }
        sorted
    }
}

proof fn lemma_row_shown(
    hosts: Hosts,
    entries: Seq<(Seq<char>, HostModel)>,
    n: int,
    rows: Seq<RemotePanelAgent>,
    tags: Seq<(Seq<char>, Seq<char>)>,
    i: int,
)
    requires
        keyed_by_pane(hosts),
        rows_cover(hosts, entries, n, rows, tags),
        0 <= i < rows.len(),
    ensures
        panel_shows(hosts, rows[i]@),
        tags[i] == (rows[i]@.host_key, rows[i]@.presentation.pane_id),
{
    reveal(keyed_by_pane);
    assert(hosts.contains_key(tags[i].0) && hosts[tags[i].0].agents.contains_key(tags[i].1));
    assert(hosts[tags[i].0].agents[tags[i].1].presentation.pane_id == tags[i].1);
}

proof fn lemma_row_found(
    hosts: Hosts,
    entries: Seq<(Seq<char>, HostModel)>,
    rows: Seq<RemotePanelAgent>,
    tags: Seq<(Seq<char>, Seq<char>)>,
    row: PanelModel,
) -> (i: int)
    requires
        keys_ascend(entries),
        hosts == entries_map(entries),
        rows_cover(hosts, entries, entries.len() as int, rows, tags),
        panel_shows(hosts, row),
    ensures
        0 <= i < rows.len(),
        rows[i]@ == row,
{
    let host = row.host_key;
    let pane = row.presentation.pane_id;
    lemma_key_found(entries, host);
    let h = key_position(entries, host);
    assert(entries[h].1.agents.contains_key(pane));
    assert(tags.contains((entries[h].0, pane)));
    let i = tags.index_of((host, pane));
    assert(tags[i] == (host, pane));
    i
}

proof fn lemma_rows_untied(
    hosts: Hosts,
    entries: Seq<(Seq<char>, HostModel)>,
    n: int,
    rows: Seq<RemotePanelAgent>,
    tags: Seq<(Seq<char>, Seq<char>)>,
)
    requires
        keyed_by_pane(hosts),
        rows_cover(hosts, entries, n, rows, tags),
    ensures
        untied(rows, panel_order()),
{
    let le = panel_order();
    assert forall|i: int, j: int| 0 <= i < j < rows.len() implies !tied(
        le,
        #[trigger] rows[i],
        #[trigger] rows[j],
    ) by {
        lemma_row_shown(hosts, entries, n, rows, tags, i);
        lemma_row_shown(hosts, entries, n, rows, tags, j);
        lemma_panel_trichotomy(rows[i]@, rows[j]@);
        assert(tags[i] != tags[j]);
    }
}

/// The hosts that cannot be reached.
pub open spec fn offline_hosts(hosts: Hosts) -> Set<Seq<char>> {
    Set::new(|key: Seq<char>| hosts.contains_key(key) && !hosts[key].online)
}

impl RemoteAgentRegistry {
    /// The number of hosts that cannot be reached.
    pub fn unavailable_source_count(&self) -> (count: usize)
        ensures
            offline_hosts(self@).finite(),
            count == offline_hosts(self@).len(),
    {
        let n = self.hosts.len();
        let ghost entries = self.hosts.entries();
        let ghost mut found: Set<Seq<char>> = Set::empty();
        let mut count: usize = 0;
        let mut i: usize = 0;
        while i < n
            invariant
                n == entries.len(),
                entries == self.hosts.entries(),
                keys_ascend(entries),
                i <= n,
                count <= i,
                found.finite(),
                count == found.len(),
                forall|key: Seq<char>| #[trigger]
                    found.contains(key) <==> exists|j: int|
                        0 <= j < i && (#[trigger] entries[j]).0 == key && !entries[j].1.online,
            decreases n - i,
        {
            let ghost earlier = found;
            if !self.hosts.value_at(i).online {
                proof {
                    let key = entries[i as int].0;
                    if found.contains(key) {
                        let j = choose|j: int|
                            0 <= j < i && (#[trigger] entries[j]).0 == key
                                && !entries[j].1.online;
                        lemma_entry_found(entries, j);
                        lemma_entry_found(entries, i as int);
                    }
                    found = found.insert(key);
                }
                count = count + 1;
            }
            proof {
                assert forall|key: Seq<char>| #[trigger]
                    found.contains(key) <==> exists|j: int|
                        0 <= j < i + 1 && (#[trigger] entries[j]).0 == key
                            && !entries[j].1.online by {
                    if found.contains(key) {
                        if earlier.contains(key) {
                            let j = choose|j: int|
                                0 <= j < i && (#[trigger] entries[j]).0 == key
                                    && !entries[j].1.online;
                            assert(entries[j].0 == key);
                        } else {
                            assert(entries[i as int].0 == key);
                        }
                    }
                    if exists|j: int|
                        0 <= j < i + 1 && (#[trigger] entries[j]).0 == key
                            && !entries[j].1.online {
                        let j = choose|j: int|
                            0 <= j < i + 1 && (#[trigger] entries[j]).0 == key
                                && !entries[j].1.online;
                        if j < i {
                            assert(earlier.contains(key));
                        }
                    }
                }
            }
            i = i + 1;
        }
        proof {
            assert forall|key: Seq<char>| found.contains(key) == offline_hosts(self@).contains(
                key,
            ) by {
                if found.contains(key) {
                    let j = choose|j: int|
                        0 <= j < n && (#[trigger] entries[j]).0 == key && !entries[j].1.online;
                    lemma_entry_found(entries, j);
                }
                if offline_hosts(self@).contains(key) {
                    lemma_key_found(entries, key);
                }
            }
            assert(found =~= offline_hosts(self@));
        }
        count
    }
}

} // verus!
