//! What holds of the registry over several calls.

use vstd::prelude::*;

use crate::remote_agents::host::{RemoteHostRegistration, UpdateModel};
use crate::remote_agents::presentation::{PresentationModel, SnapshotModel};
use crate::remote_agents::registry::{
    empty_host, host_offline, host_with_snapshot, hosts_dropped, is_panel, keyed_by_pane,
    observed_agents, observed_sequence, online_hosts_reported, panel_row, panel_shows,
    reconcile_changes, reconciled_hosts, registered_host, registered_hosts, registered_key,
    registration_changes, registrations_change, reported_if_online, retained_hosts, update_accepted,
    update_changes, updated_host, updated_sequence, HostModel, Hosts, PanelModel, StoredAgentModel,
};

verus! {

/// No two reported agents run in the same pane.
pub open spec fn panes_differ(reported: Seq<PresentationModel>) -> bool {
    forall|i: int, j: int|
        0 <= i < j < reported.len() ==> (#[trigger] reported[i]).pane_id != (
        #[trigger] reported[j]).pane_id
}

/// No two registrations are for the same host.
pub open spec fn keys_differ(registrations: Seq<RemoteHostRegistration>) -> bool {
    forall|i: int, j: int|
        0 <= i < j < registrations.len() ==> (#[trigger] registrations[i]).key@ != (
        #[trigger] registrations[j]).key@
}

/// A host that cannot be reached keeps the agents that it last reported.
pub proof fn offline_host_keeps_its_agents(host: HostModel, error: Seq<char>)
    ensures
        host_offline(host, error).agents == host.agents,
        host_offline(host, error).version == host.version,
        host_offline(host, error).protocol == host.protocol,
        !host_offline(host, error).online,
{
}

/// A reported agent is stored as it was reported, under the number that its observation gave.
pub proof fn lemma_agent_observed(
    stored: Map<Seq<char>, StoredAgentModel>,
    reported: Seq<PresentationModel>,
    n: int,
    last: u64,
    i: int,
)
    requires
        panes_differ(reported),
        0 <= i < n <= reported.len(),
    ensures
        ({
            let pane = reported[i].pane_id;
            let agents = observed_agents(stored, reported, n, last).0;
            let sequence = observed_sequence(
                stored,
                reported[i],
                observed_agents(stored, reported, i, last).1,
            ).0;
            agents.contains_key(pane) && agents[pane] == (StoredAgentModel {
                presentation: reported[i],
                state_change_seq: sequence,
            })
        }),
    decreases n,
{
    if i < n - 1 {
        lemma_agent_observed(stored, reported, n - 1, last, i);
        assert(reported[i].pane_id != reported[n - 1].pane_id);
    }
}

proof fn lemma_observed_again(
    stored: Map<Seq<char>, StoredAgentModel>,
    reported: Seq<PresentationModel>,
    n: int,
    last: u64,
    later: u64,
)
    requires
        panes_differ(reported),
        0 <= n <= reported.len(),
    ensures
        ({
            let known = observed_agents(stored, reported, reported.len() as int, last).0;
            observed_agents(known, reported, n, later) == (
                observed_agents(stored, reported, n, last).0,
                later,
            )
        }),
    decreases n,
{
    if n > 0 {
        lemma_observed_again(stored, reported, n - 1, last, later);
        lemma_agent_observed(stored, reported, reported.len() as int, last, n - 1);
    }
}

/// A report that a host repeats changes nothing that is shown, and takes no new number.
pub proof fn repeated_report_changes_nothing(
    host: HostModel,
    snapshot: SnapshotModel,
    last: u64,
    later: u64,
)
    requires
        panes_differ(snapshot.agents),
    ensures
        ({
            let once = host_with_snapshot(host, snapshot, last);
            let kind = UpdateModel::Snapshot(snapshot);
            &&& updated_host(once, kind, later) == once
            &&& updated_sequence(once, kind, later) == later
            &&& !update_changes(once, updated_host(once, kind, later))
        }),
{
    lemma_observed_again(
        host.agents,
        snapshot.agents,
        snapshot.agents.len() as int,
        last,
        later,
    );
}

proof fn lemma_observed_sequence_grows(
    stored: Map<Seq<char>, StoredAgentModel>,
    reported: Seq<PresentationModel>,
    m: int,
    n: int,
    last: u64,
)
    requires
        0 <= m <= n <= reported.len(),
    ensures
        observed_agents(stored, reported, m, last).1 <= observed_agents(
            stored,
            reported,
            n,
            last,
        ).1,
        last <= observed_agents(stored, reported, m, last).1,
    decreases n + m,
{
    if m < n {
        lemma_observed_sequence_grows(stored, reported, m, n - 1, last);
    } else if m > 0 {
        lemma_observed_sequence_grows(stored, reported, m - 1, m - 1, last);
    }
}

/// The numbers of status changes never go back.
pub proof fn status_numbers_never_go_back(host: HostModel, kind: UpdateModel, last: u64)
    ensures
        last <= updated_sequence(host, kind, last),
{
    match kind {
        UpdateModel::Snapshot(snapshot) => {
            lemma_observed_sequence_grows(
                host.agents,
                snapshot.agents,
                snapshot.agents.len() as int,
                snapshot.agents.len() as int,
                last,
            );
        },
        UpdateModel::Offline { .. } => {},
    }
}

/// A known agent whose status changed gets a number that was not in use before the report, while
/// there are numbers left; one whose status stayed keeps its number; a new one has none.
pub proof fn status_change_takes_a_new_number(
    host: HostModel,
    snapshot: SnapshotModel,
    last: u64,
    i: int,
)
    requires
        panes_differ(snapshot.agents),
        0 <= i < snapshot.agents.len(),
        last + snapshot.agents.len() <= u64::MAX,
    ensures
        ({
            let reported = snapshot.agents[i];
            let pane = reported.pane_id;
            let after = host_with_snapshot(host, snapshot, last);
            let known = host.agents.contains_key(pane);
            let same = host.agents[pane].presentation.state == reported.state
                && host.agents[pane].presentation.seen == reported.seen;
            &&& after.agents.contains_key(pane)
            &&& after.agents[pane].presentation == reported
            &&& !known ==> after.agents[pane].state_change_seq is None
            &&& known && same ==> after.agents[pane].state_change_seq
                == host.agents[pane].state_change_seq
            &&& known && !same ==> (after.agents[pane].state_change_seq matches Some(number)
                && last < number <= updated_sequence(
                host,
                UpdateModel::Snapshot(snapshot),
                last,
            ))
        }),
{
    let n = snapshot.agents.len() as int;
    lemma_agent_observed(host.agents, snapshot.agents, n, last, i);
    lemma_observed_sequence_grows(host.agents, snapshot.agents, i, i, last);
    lemma_observed_sequence_grows(host.agents, snapshot.agents, i + 1, n, last);
    lemma_sequence_bound(host.agents, snapshot.agents, i, last);
}

proof fn lemma_sequence_bound(
    stored: Map<Seq<char>, StoredAgentModel>,
    reported: Seq<PresentationModel>,
    n: int,
    last: u64,
)
    requires
        0 <= n <= reported.len(),
        last + n <= u64::MAX,
    ensures
        observed_agents(stored, reported, n, last).1 <= last + n,
    decreases n,
{
    if n > 0 {
        lemma_sequence_bound(stored, reported, n - 1, last);
    }
}

proof fn lemma_only_reported(
    stored: Map<Seq<char>, StoredAgentModel>,
    reported: Seq<PresentationModel>,
    n: int,
    last: u64,
    pane: Seq<char>,
)
    requires
        0 <= n <= reported.len(),
        observed_agents(stored, reported, n, last).0.contains_key(pane),
    ensures
        exists|i: int| 0 <= i < n && (#[trigger] reported[i]).pane_id == pane,
    decreases n,
{
    if n > 0 && reported[n - 1].pane_id != pane {
        lemma_only_reported(stored, reported, n - 1, last, pane);
    }
}

/// After a report the panel shows exactly the reported agents of the host, online, and none that
/// the host has reported only before.
pub proof fn panel_shows_the_last_report(
    hosts: Hosts,
    key: Seq<char>,
    snapshot: SnapshotModel,
    last: u64,
    row: PanelModel,
)
    requires
        hosts.contains_key(key),
        panes_differ(snapshot.agents),
        row.host_key == key,
    ensures
        ({
            let after = hosts.insert(
                key,
                updated_host(hosts[key], UpdateModel::Snapshot(snapshot), last),
            );
            panel_shows(after, row) ==> row.online && exists|i: int|
                0 <= i < snapshot.agents.len() && row.presentation == #[trigger] snapshot.agents[i]
        }),
        forall|i: int|
            0 <= i < snapshot.agents.len() ==> host_with_snapshot(
                hosts[key],
                snapshot,
                last,
            ).agents.contains_key((#[trigger] snapshot.agents[i]).pane_id),
{
    let host = host_with_snapshot(hosts[key], snapshot, last);
    let n = snapshot.agents.len() as int;
    assert forall|i: int| 0 <= i < n implies host.agents.contains_key(
        (#[trigger] snapshot.agents[i]).pane_id,
    ) by {
        lemma_agent_observed(hosts[key].agents, snapshot.agents, n, last, i);
    }
    let after = hosts.insert(key, host);
    if panel_shows(after, row) {
        let pane = row.presentation.pane_id;
        lemma_only_reported(hosts[key].agents, snapshot.agents, n, last, pane);
        let i = choose|i: int| 0 <= i < n && (#[trigger] snapshot.agents[i]).pane_id == pane;
        lemma_agent_observed(hosts[key].agents, snapshot.agents, n, last, i);
        assert(row.presentation == snapshot.agents[i]);
    }
}

/// An update for one host leaves all other hosts and their rows in the panel as they are.
pub proof fn updates_stay_with_their_host(
    hosts: Hosts,
    key: Seq<char>,
    kind: UpdateModel,
    last: u64,
    other: Seq<char>,
    row: PanelModel,
)
    requires
        hosts.contains_key(key),
        other != key,
        row.host_key == other,
    ensures
        ({
            let after = hosts.insert(key, updated_host(hosts[key], kind, last));
            &&& after.contains_key(other) == hosts.contains_key(other)
            &&& hosts.contains_key(other) ==> after[other] == hosts[other]
            &&& panel_shows(after, row) == panel_shows(hosts, row)
        }),
{
}

proof fn lemma_registered_dom(
    hosts: Hosts,
    registrations: Seq<RemoteHostRegistration>,
    n: int,
    key: Seq<char>,
)
    requires
        0 <= n <= registrations.len(),
    ensures
        registered_hosts(hosts, registrations, n).contains_key(key) <==> hosts.contains_key(key)
            || registered_key(registrations.take(n), key),
    decreases n,
{
    if n > 0 {
        lemma_registered_dom(hosts, registrations, n - 1, key);
        let shorter = registrations.take(n - 1);
        let longer = registrations.take(n);
        if registered_key(shorter, key) {
            let i = choose|i: int| 0 <= i < shorter.len() && (#[trigger] shorter[i]).key@ == key;
            assert(longer[i].key@ == key);
        }
        if registrations[n - 1].key@ == key {
            assert(longer[n - 1].key@ == key);
        }
        if registered_key(longer, key) {
            let i = choose|i: int| 0 <= i < longer.len() && (#[trigger] longer[i]).key@ == key;
            if i < n - 1 {
                assert(shorter[i].key@ == key);
            }
        }
    }
}

/// After a reconciliation the watched hosts are exactly the registered ones.
pub proof fn reconciled_hosts_are_the_registered_ones(
    hosts: Hosts,
    registrations: Seq<RemoteHostRegistration>,
    key: Seq<char>,
)
    ensures
        reconciled_hosts(hosts, registrations).contains_key(key) <==> registered_key(
            registrations,
            key,
        ),
{
    lemma_registered_dom(
        retained_hosts(hosts, registrations),
        registrations,
        registrations.len() as int,
        key,
    );
    assert(registrations.take(registrations.len() as int) =~= registrations);
}

/// A host that no registration up to some point is for is as it was.
proof fn lemma_host_untouched(
    hosts: Hosts,
    registrations: Seq<RemoteHostRegistration>,
    n: int,
    key: Seq<char>,
)
    requires
        0 <= n <= registrations.len(),
        forall|i: int| 0 <= i < n ==> (#[trigger] registrations[i]).key@ != key,
    ensures
        registered_hosts(hosts, registrations, n).contains_key(key) == hosts.contains_key(key),
        hosts.contains_key(key) ==> registered_hosts(hosts, registrations, n)[key] == hosts[key],
    decreases n,
{
    if n > 0 {
        lemma_host_untouched(hosts, registrations, n - 1, key);
    }
}

/// The host of a registration, where each host is registered once.
proof fn lemma_host_registered(
    hosts: Hosts,
    registrations: Seq<RemoteHostRegistration>,
    n: int,
    i: int,
)
    requires
        keys_differ(registrations),
        0 <= i < n <= registrations.len(),
    ensures
        registered_hosts(hosts, registrations, n).contains_key(registrations[i].key@),
        registered_hosts(hosts, registrations, n)[registrations[i].key@] == registered_host(
            hosts,
            registrations[i],
        ),
    decreases n,
{
    let key = registrations[i].key@;
    if i == n - 1 {
        lemma_host_untouched(hosts, registrations, n - 1, key);
    } else {
        lemma_host_registered(hosts, registrations, n - 1, i);
        assert(registrations[n - 1].key@ != key);
    }
}

/// Where each host is registered once, a registered host keeps its agents and its connection if
/// its generation is the same, whatever its new label and order; otherwise it starts anew.
pub proof fn registration_keeps_or_renews_a_host(
    hosts: Hosts,
    registrations: Seq<RemoteHostRegistration>,
    i: int,
)
    requires
        keys_differ(registrations),
        0 <= i < registrations.len(),
    ensures
        ({
            let registration = registrations[i];
            let key = registration.key@;
            let after = reconciled_hosts(hosts, registrations);
            &&& after.contains_key(key)
            &&& after[key].label == registration.label@
            &&& after[key].order == registration.order
            &&& after[key].generation == registration.generation
            &&& hosts.contains_key(key) && hosts[key].generation == registration.generation
                ==> after[key] == (HostModel {
                label: registration.label@,
                order: registration.order,
                ..hosts[key]
            })
            &&& !(hosts.contains_key(key) && hosts[key].generation == registration.generation)
                ==> !after[key].online && after[key].agents == Map::<
                Seq<char>,
                StoredAgentModel,
            >::empty() && after[key] == empty_host(registration)
        }),
{
    let retained = retained_hosts(hosts, registrations);
    lemma_host_registered(retained, registrations, registrations.len() as int, i);
    assert(registered_key(registrations, registrations[i].key@));
}

/// After a reconciliation only updates of the registered generation are accepted.
pub proof fn stale_generations_are_refused(
    hosts: Hosts,
    registrations: Seq<RemoteHostRegistration>,
    i: int,
    generation: u64,
)
    requires
        keys_differ(registrations),
        0 <= i < registrations.len(),
    ensures
        update_accepted(
            reconciled_hosts(hosts, registrations),
            registrations[i].key@,
            generation,
        ) <==> generation == registrations[i].generation,
{
    registration_keeps_or_renews_a_host(hosts, registrations, i);
}

/// The position of the registration of a host.
spec fn registration_position(registrations: Seq<RemoteHostRegistration>, key: Seq<char>) -> int {
    choose|i: int| 0 <= i < registrations.len() && (#[trigger] registrations[i]).key@ == key
}

/// Where each host is registered once, a reconciliation says that something changed if and only
/// if the hosts are no longer the same.
pub proof fn reconciliation_reports_changes(
    hosts: Hosts,
    registrations: Seq<RemoteHostRegistration>,
)
    requires
        keys_differ(registrations),
    ensures
        reconcile_changes(hosts, registrations) <==> reconciled_hosts(hosts, registrations)
            != hosts,
{
    let retained = retained_hosts(hosts, registrations);
    let n = registrations.len() as int;
    let after = reconciled_hosts(hosts, registrations);
    if hosts_dropped(hosts, registrations) {
        let key = choose|key: Seq<char>| #[trigger]
            hosts.contains_key(key) && !registered_key(registrations, key);
        reconciled_hosts_are_the_registered_ones(hosts, registrations, key);
        assert(after != hosts);
    } else {
        assert(retained =~= hosts);
        if registrations_change(retained, registrations, n) {
            let i = choose|i: int|
                0 <= i < n && registration_changes(
                    registered_hosts(retained, registrations, i),
                    #[trigger] registrations[i],
                );
            lemma_host_untouched(retained, registrations, i, registrations[i].key@);
            lemma_host_registered(retained, registrations, n, i);
            assert(after != hosts);
        } else {
            assert forall|key: Seq<char>|
                #![trigger after.dom().contains(key)]
                #![trigger hosts.dom().contains(key)]
                after.dom().contains(key) == hosts.dom().contains(key) && (
                hosts.dom().contains(key) ==> after[key] == hosts[key]) by {
                reconciled_hosts_are_the_registered_ones(hosts, registrations, key);
                if registered_key(registrations, key) {
                    let i = registration_position(registrations, key);
                    assert(registrations[i].key@ == key);
                    lemma_host_untouched(retained, registrations, i, key);
                    lemma_host_registered(retained, registrations, n, i);
                    assert(!registration_changes(
                        registered_hosts(retained, registrations, i),
                        registrations[i],
                    ));
                }
            }
            assert(after =~= hosts);
        }
    }
}

/// Where each host is registered once, reconciling again with the same registrations changes
/// nothing.
pub proof fn repeated_reconciliation_changes_nothing(
    hosts: Hosts,
    registrations: Seq<RemoteHostRegistration>,
)
    requires
        keys_differ(registrations),
    ensures
        ({
            let once = reconciled_hosts(hosts, registrations);
            &&& reconciled_hosts(once, registrations) == once
            &&& !reconcile_changes(once, registrations)
        }),
{
    let once = reconciled_hosts(hosts, registrations);
    let twice = reconciled_hosts(once, registrations);
    assert forall|key: Seq<char>|
        #![trigger twice.dom().contains(key)]
        #![trigger once.dom().contains(key)]
        twice.dom().contains(key) == once.dom().contains(key) && (once.dom().contains(key)
            ==> twice[key] == once[key]) by {
        reconciled_hosts_are_the_registered_ones(hosts, registrations, key);
        reconciled_hosts_are_the_registered_ones(once, registrations, key);
        if registered_key(registrations, key) {
            let i = registration_position(registrations, key);
            assert(registrations[i].key@ == key);
            registration_keeps_or_renews_a_host(hosts, registrations, i);
            registration_keeps_or_renews_a_host(once, registrations, i);
        }
    }
    assert(twice =~= once);
    reconciliation_reports_changes(once, registrations);
}

/// Where no host is watched, every host that is online has reported itself.
pub proof fn no_hosts_are_reported()
    ensures
        online_hosts_reported(Map::<Seq<char>, HostModel>::empty()),
{
    reveal(online_hosts_reported);
}

proof fn lemma_registered_reported(
    hosts: Hosts,
    registrations: Seq<RemoteHostRegistration>,
    n: int,
)
    requires
        online_hosts_reported(hosts),
        0 <= n <= registrations.len(),
    ensures
        online_hosts_reported(registered_hosts(hosts, registrations, n)),
    decreases n,
{
    if n > 0 {
        lemma_registered_reported(hosts, registrations, n - 1);
        reveal(online_hosts_reported);
    }
}

/// A reconciliation keeps that every host that is online has no error and has reported its version
/// and its protocol.
pub proof fn reconciled_hosts_stay_reported(
    hosts: Hosts,
    registrations: Seq<RemoteHostRegistration>,
)
    requires
        online_hosts_reported(hosts),
    ensures
        online_hosts_reported(reconciled_hosts(hosts, registrations)),
{
    let retained = retained_hosts(hosts, registrations);
    assert(online_hosts_reported(retained)) by {
        reveal(online_hosts_reported);
    }
    lemma_registered_reported(retained, registrations, registrations.len() as int);
}

/// An update keeps that every host that is online has no error and has reported its version and
/// its protocol.
pub proof fn updated_hosts_stay_reported(
    hosts: Hosts,
    key: Seq<char>,
    kind: UpdateModel,
    last: u64,
)
    requires
        online_hosts_reported(hosts),
        hosts.contains_key(key),
    ensures
        online_hosts_reported(hosts.insert(key, updated_host(hosts[key], kind, last))),
{
    reveal(online_hosts_reported);
}

/// An update that is taken over says that something changed if and only if the hosts are no longer
/// the same.
pub proof fn updates_report_changes(hosts: Hosts, key: Seq<char>, kind: UpdateModel, last: u64)
    requires
        online_hosts_reported(hosts),
        hosts.contains_key(key),
    ensures
        update_changes(hosts[key], updated_host(hosts[key], kind, last)) <==> hosts.insert(
            key,
            updated_host(hosts[key], kind, last),
        ) != hosts,
{
    reveal(online_hosts_reported);
    let before = hosts[key];
    let after = updated_host(before, kind, last);
    assert(reported_if_online(before));
    if update_changes(before, after) {
        assert(hosts.insert(key, after)[key] != hosts[key]);
    } else {
        assert(after =~= before);
        assert(hosts.insert(key, after) =~= hosts);
    }
}

/// Every agent of a watched host has a row in the panel, under its pane and with what is stored of
/// it.
pub proof fn every_agent_has_a_row(
    rows: Seq<PanelModel>,
    hosts: Hosts,
    key: Seq<char>,
    pane: Seq<char>,
)
    requires
        is_panel(rows, hosts),
        keyed_by_pane(hosts),
        hosts.contains_key(key),
        hosts[key].agents.contains_key(pane),
    ensures
        rows.contains(panel_row(key, hosts[key], hosts[key].agents[pane])),
        hosts[key].agents[pane].presentation.pane_id == pane,
{
    reveal(keyed_by_pane);
    let row = panel_row(key, hosts[key], hosts[key].agents[pane]);
    assert(panel_shows(hosts, row));
}

} // verus!
