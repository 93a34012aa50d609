//! What the panel shows of the registry, and what updates and registrations make of it.

use vstd::prelude::*;

use crate::remote_agents::host::{RemoteHostRegistration, UpdateModel};
use crate::remote_agents::presentation::{PresentationModel, SnapshotModel};
use crate::remote_agents::registry::{
    empty_host, is_panel, keyed_by_pane, observed_agents, offline_hosts, online_hosts_reported,
    panel_row, panel_shows, reconciled_hosts, registered_hosts, reported_if_online, retained_hosts,
    sequence_after, update_accepted, updated_host, updated_sequence, HostModel, Hosts, PanelModel,
    StoredAgentModel,
};
use crate::remote_agents::registry_laws::{
    keys_differ, lemma_agent_observed, panes_differ, reconciled_hosts_are_the_registered_ones,
    registration_keeps_or_renews_a_host,
};
use crate::remote_agents::sanitize::sanitized;
use crate::text::{text_less, text_less_asymmetric};

verus! {

/// A row of the panel shows what is stored of one agent of one watched host: the label, the place
/// and the connection of that host, and how that agent was last reported.
pub proof fn rows_show_what_is_stored(rows: Seq<PanelModel>, hosts: Hosts, i: int)
    requires
        is_panel(rows, hosts),
        0 <= i < rows.len(),
    ensures
        ({
            let row = rows[i];
            let host = hosts[row.host_key];
            let pane = row.presentation.pane_id;
            &&& hosts.contains_key(row.host_key)
            &&& row.host_label == host.label
            &&& row.host_order == host.order
            &&& row.online == host.online
            &&& host.agents.contains_key(pane)
            &&& row.presentation == host.agents[pane].presentation
            &&& row.state_change_seq == host.agents[pane].state_change_seq
        }),
{
    assert(rows.contains(rows[i]));
    assert(panel_shows(hosts, rows[i]));
}

/// Every agent of every watched host has a row, and only one.
pub proof fn stored_agents_have_one_row(
    rows: Seq<PanelModel>,
    hosts: Hosts,
    key: Seq<char>,
    pane: Seq<char>,
)
    requires
        is_panel(rows, hosts),
        keyed_by_pane(hosts),
        hosts.contains_key(key),
        hosts[key].agents.contains_key(pane),
    ensures
        exists|i: int|
            0 <= i < rows.len() && (#[trigger] rows[i]).host_key == key
                && rows[i].presentation.pane_id == pane && rows[i].presentation
                == hosts[key].agents[pane].presentation && rows[i].state_change_seq
                == hosts[key].agents[pane].state_change_seq && rows[i].host_label
                == hosts[key].label && rows[i].host_order == hosts[key].order && rows[i].online
                == hosts[key].online,
        forall|i: int, j: int|
            0 <= i < j < rows.len() ==> !((#[trigger] rows[i]).host_key == (
            #[trigger] rows[j]).host_key && rows[i].presentation.pane_id
                == rows[j].presentation.pane_id),
{
    reveal(keyed_by_pane);
    let row = panel_row(key, hosts[key], hosts[key].agents[pane]);
    assert(hosts[key].agents[pane].presentation.pane_id == pane);
    assert(panel_shows(hosts, row));
    assert(rows.contains(row));
    let i = choose|i: int| 0 <= i < rows.len() && rows[i] == row;
    assert(rows[i].host_key == key);
    assert forall|i: int, j: int| 0 <= i < j < rows.len() implies !((#[trigger] rows[i]).host_key
        == (#[trigger] rows[j]).host_key && rows[i].presentation.pane_id
        == rows[j].presentation.pane_id) by {
        rows_show_what_is_stored(rows, hosts, i);
        rows_show_what_is_stored(rows, hosts, j);
        text_less_asymmetric(rows[i].host_key, rows[j].host_key);
        text_less_asymmetric(rows[i].presentation.pane_id, rows[j].presentation.pane_id);
        if rows[i].host_key == rows[j].host_key && rows[i].presentation.pane_id
            == rows[j].presentation.pane_id {
            assert(rows[i] == rows[j]);
        }
    }
}

/// The rows of the panel go by the order of the hosts, and of hosts in the same place by their
/// keys. Of two rows of the same host the one in the earlier workspace stands first, whatever its
/// tab and pane; in the same workspace the one in the earlier tab; in the same tab the one in the
/// earlier pane; and in the same place the one whose pane comes first by its identifier.
pub proof fn rows_go_by_host_workspace_tab_and_pane(
    rows: Seq<PanelModel>,
    hosts: Hosts,
    i: int,
    j: int,
)
    requires
        is_panel(rows, hosts),
        0 <= i < j < rows.len(),
    ensures
        rows[i].host_order <= rows[j].host_order,
        rows[i].host_order == rows[j].host_order && rows[i].host_key != rows[j].host_key
            ==> text_less(rows[i].host_key, rows[j].host_key),
        rows[i].host_key == rows[j].host_key ==> {
            let a = rows[i].presentation.display_order;
            let b = rows[j].presentation.display_order;
            &&& a.0 <= b.0
            &&& a.0 == b.0 ==> a.1 <= b.1
            &&& a.0 == b.0 && a.1 == b.1 ==> a.2 <= b.2
            &&& a.0 == b.0 && a.1 == b.1 && a.2 == b.2 ==> text_less(
                rows[i].presentation.pane_id,
                rows[j].presentation.pane_id,
            )
        },
{
    rows_show_what_is_stored(rows, hosts, i);
    rows_show_what_is_stored(rows, hosts, j);
    text_less_asymmetric(rows[i].host_key, rows[j].host_key);
}

/// An agent is stored under the pane that it runs in.
pub proof fn agents_are_stored_under_their_panes(hosts: Hosts, key: Seq<char>, pane: Seq<char>)
    requires
        keyed_by_pane(hosts),
        hosts.contains_key(key),
        hosts[key].agents.contains_key(pane),
    ensures
        hosts[key].agents[pane].presentation.pane_id == pane,
{
    reveal(keyed_by_pane);
}

/// An update is taken over if and only if it is for a watched host, under the generation that the
/// host is watched under.
pub proof fn updates_are_taken_over_for_watched_generations(
    hosts: Hosts,
    key: Seq<char>,
    generation: u64,
)
    ensures
        update_accepted(hosts, key, generation) <==> hosts.contains_key(key)
            && hosts[key].generation == generation,
{
}

/// That a host cannot be reached takes it offline with the sanitized error, and leaves all else
/// that is known of it.
pub proof fn offline_hosts_keep_all_but_their_connection(
    host: HostModel,
    error: Seq<char>,
    last: u64,
)
    ensures
        ({
            let kind = UpdateModel::Offline { error };
            let after = updated_host(host, kind, last);
            &&& !after.online
            &&& after.last_error == Some(sanitized(error, 256))
            &&& after.label == host.label
            &&& after.generation == host.generation
            &&& after.order == host.order
            &&& after.version == host.version
            &&& after.protocol == host.protocol
            &&& after.agents == host.agents
            &&& updated_sequence(host, kind, last) == last
        }),
{
}

/// A report brings a host online without an error, in the version and protocol that it gives; its
/// agents are exactly the reported ones, each as it was reported.
pub proof fn reports_replace_the_agents(
    host: HostModel,
    snapshot: SnapshotModel,
    last: u64,
    pane: Seq<char>,
)
    requires
        panes_differ(snapshot.agents),
    ensures
        ({
            let after = updated_host(host, UpdateModel::Snapshot(snapshot), last);
            &&& after.online
            &&& after.last_error is None
            &&& after.version == Some(snapshot.version)
            &&& after.protocol == Some(snapshot.protocol)
            &&& after.label == host.label
            &&& after.generation == host.generation
            &&& after.order == host.order
            &&& after.agents.contains_key(pane) <==> exists|i: int|
                0 <= i < snapshot.agents.len() && (#[trigger] snapshot.agents[i]).pane_id == pane
            &&& forall|i: int|
                0 <= i < snapshot.agents.len() && (#[trigger] snapshot.agents[i]).pane_id == pane
                    ==> after.agents[pane].presentation == snapshot.agents[i]
        }),
{
    let after = updated_host(host, UpdateModel::Snapshot(snapshot), last);
    let n = snapshot.agents.len() as int;
    assert forall|i: int|
        0 <= i < n && (#[trigger] snapshot.agents[i]).pane_id == pane implies
        after.agents[pane].presentation == snapshot.agents[i] && after.agents.contains_key(pane) by {
        lemma_agent_observed(host.agents, snapshot.agents, n, last, i);
    }
    if after.agents.contains_key(pane) {
        lemma_reported(host.agents, snapshot.agents, n, last, pane);
    }
}

proof fn lemma_reported(
    stored: Map<Seq<char>, StoredAgentModel>,
    reported: Seq<PresentationModel>,
    n: int,
    last: u64,
    pane: Seq<char>,
)
    requires
        0 <= n <= reported.len(),
        observed_agents(stored, reported, n, last).0.contains_key(pane),
    ensures
        exists|i: int| 0 <= i < n && (#[trigger] reported[i]).pane_id == pane,
    decreases n,
{
    if n > 0 && reported[n - 1].pane_id != pane {
        lemma_reported(stored, reported, n - 1, last, pane);
    }
}

/// Where a report names a pane more than once, the last agent that it names there is stored.
pub proof fn last_agent_of_a_pane_is_stored(
    host: HostModel,
    snapshot: SnapshotModel,
    last: u64,
    i: int,
)
    requires
        0 <= i < snapshot.agents.len(),
        forall|k: int|
            i < k < snapshot.agents.len() ==> (#[trigger] snapshot.agents[k]).pane_id
                != snapshot.agents[i].pane_id,
    ensures
        ({
            let after = updated_host(host, UpdateModel::Snapshot(snapshot), last);
            let pane = snapshot.agents[i].pane_id;
            after.agents.contains_key(pane) && after.agents[pane].presentation
                == snapshot.agents[i]
        }),
{
    lemma_last_observed(host.agents, snapshot.agents, snapshot.agents.len() as int, last, i);
}

proof fn lemma_last_observed(
    stored: Map<Seq<char>, StoredAgentModel>,
    reported: Seq<PresentationModel>,
    n: int,
    last: u64,
    i: int,
)
    requires
        0 <= i < n <= reported.len(),
        forall|k: int| i < k < n ==> (#[trigger] reported[k]).pane_id != reported[i].pane_id,
    ensures
        ({
            let agents = observed_agents(stored, reported, n, last).0;
            agents.contains_key(reported[i].pane_id) && agents[reported[i].pane_id].presentation
                == reported[i]
        }),
    decreases n,
{
    if i < n - 1 {
        lemma_last_observed(stored, reported, n - 1, last, i);
        assert(reported[n - 1].pane_id != reported[i].pane_id);
    }
}

/// Where a host is registered more than once, its last registration decides under which label,
/// place and generation it is watched.
pub proof fn last_registration_of_a_host_decides(
    hosts: Hosts,
    registrations: Seq<RemoteHostRegistration>,
    i: int,
)
    requires
        0 <= i < registrations.len(),
        forall|k: int|
            i < k < registrations.len() ==> (#[trigger] registrations[k]).key@
                != registrations[i].key@,
    ensures
        ({
            let key = registrations[i].key@;
            let after = reconciled_hosts(hosts, registrations);
            &&& after.contains_key(key)
            &&& after[key].label == registrations[i].label@
            &&& after[key].order == registrations[i].order
            &&& after[key].generation == registrations[i].generation
        }),
{
    lemma_last_registered(
        retained_hosts(hosts, registrations),
        registrations,
        registrations.len() as int,
        i,
    );
}

proof fn lemma_last_registered(
    hosts: Hosts,
    registrations: Seq<RemoteHostRegistration>,
    n: int,
    i: int,
)
    requires
        0 <= i < n <= registrations.len(),
        forall|k: int| i < k < n ==> (#[trigger] registrations[k]).key@ != registrations[i].key@,
    ensures
        ({
            let key = registrations[i].key@;
            let after = registered_hosts(hosts, registrations, n);
            &&& after.contains_key(key)
            &&& after[key].label == registrations[i].label@
            &&& after[key].order == registrations[i].order
            &&& after[key].generation == registrations[i].generation
        }),
    decreases n,
{
    if i < n - 1 {
        lemma_last_registered(hosts, registrations, n - 1, i);
        assert(registrations[n - 1].key@ != registrations[i].key@);
    }
}

/// The status of a known agent changed.
spec fn status_changed(
    stored: Map<Seq<char>, StoredAgentModel>,
    reported: PresentationModel,
) -> bool {
    stored.contains_key(reported.pane_id) && (stored[reported.pane_id].presentation.state
        != reported.state || stored[reported.pane_id].presentation.seen != reported.seen)
}

proof fn lemma_numbers_counted(
    stored: Map<Seq<char>, StoredAgentModel>,
    reported: Seq<PresentationModel>,
    n: int,
    last: u64,
)
    requires
        0 <= n <= reported.len(),
        last + n <= u64::MAX,
    ensures
        Set::new(|k: int| 0 <= k < n && status_changed(stored, reported[k])).finite(),
        Set::new(|k: int| 0 <= k < n && status_changed(stored, reported[k])).len() <= n,
        observed_agents(stored, reported, n, last).1 == last + Set::new(
            |k: int| 0 <= k < n && status_changed(stored, reported[k]),
        ).len(),
    decreases n,
{
    let all = Set::new(|k: int| 0 <= k < n && status_changed(stored, reported[k]));
    if n == 0 {
        assert(all =~= Set::<int>::empty());
    } else {
        lemma_numbers_counted(stored, reported, n - 1, last);
        let fewer = Set::new(|k: int| 0 <= k < n - 1 && status_changed(stored, reported[k]));
        if status_changed(stored, reported[n - 1]) {
            assert(all =~= fewer.insert(n - 1));
        } else {
            assert(all =~= fewer);
        }
    }
}

/// The status changes in a report are numbered in turn, each with the number after the one before
/// it, starting behind the last number in use; other agents take no number.
pub proof fn status_changes_are_numbered_in_turn(
    host: HostModel,
    snapshot: SnapshotModel,
    last: u64,
    i: int,
    changed: Set<int>,
)
    requires
        panes_differ(snapshot.agents),
        last + snapshot.agents.len() <= u64::MAX,
        0 <= i < snapshot.agents.len(),
        forall|k: int| #[trigger]
            changed.contains(k) <==> 0 <= k <= i && host.agents.contains_key(
                snapshot.agents[k].pane_id,
            ) && (host.agents[snapshot.agents[k].pane_id].presentation.state
                != snapshot.agents[k].state
                || host.agents[snapshot.agents[k].pane_id].presentation.seen
                != snapshot.agents[k].seen),
    ensures
        ({
            let kind = UpdateModel::Snapshot(snapshot);
            let pane = snapshot.agents[i].pane_id;
            let after = updated_host(host, kind, last);
            &&& changed.contains(i) ==> after.agents[pane].state_change_seq == Some(
                (last + changed.len()) as u64,
            ) && changed.len() > 0
            &&& i == snapshot.agents.len() - 1 ==> updated_sequence(host, kind, last) == last
                + changed.len()
            &&& !changed.contains(i) && host.agents.contains_key(pane)
                ==> after.agents[pane].state_change_seq == host.agents[pane].state_change_seq
            &&& !host.agents.contains_key(pane) ==> after.agents[pane].state_change_seq is None
        }),
{
    let n = snapshot.agents.len() as int;
    let reported = snapshot.agents;
    lemma_agent_observed(host.agents, reported, n, last, i);
    lemma_numbers_counted(host.agents, reported, i, last);
    lemma_numbers_counted(host.agents, reported, i + 1, last);
    let upto = Set::new(|k: int| 0 <= k < i + 1 && status_changed(host.agents, reported[k]));
    let before = Set::new(|k: int| 0 <= k < i && status_changed(host.agents, reported[k]));
    assert(changed =~= upto);
    if changed.contains(i) {
        assert(upto =~= before.insert(i));
    }
}

/// A sequence goes up by one, and stays where it can go no further.
pub proof fn sequences_go_up_by_one(n: u64)
    ensures
        n < u64::MAX ==> sequence_after(n) == n + 1,
        sequence_after(u64::MAX) == u64::MAX,
{
}

/// Where each host is registered once, the watched hosts after a reconciliation are exactly those
/// of the registrations, under their labels, places and generations. A host that is registered
/// under the generation that it had keeps all that is known of it; any other starts with nothing.
pub proof fn registrations_decide_the_hosts(
    hosts: Hosts,
    registrations: Seq<RemoteHostRegistration>,
    key: Seq<char>,
)
    requires
        keys_differ(registrations),
    ensures
        ({
            let after = reconciled_hosts(hosts, registrations);
            &&& after.contains_key(key) <==> exists|i: int|
                0 <= i < registrations.len() && (#[trigger] registrations[i]).key@ == key
            &&& forall|i: int|
                0 <= i < registrations.len() && (#[trigger] registrations[i]).key@ == key ==> {
                    &&& after[key].label == registrations[i].label@
                    &&& after[key].order == registrations[i].order
                    &&& after[key].generation == registrations[i].generation
                    &&& hosts.contains_key(key) && hosts[key].generation
                        == registrations[i].generation ==> after[key].online == hosts[key].online
                        && after[key].version == hosts[key].version && after[key].protocol
                        == hosts[key].protocol && after[key].last_error == hosts[key].last_error
                        && after[key].agents == hosts[key].agents
                    &&& !(hosts.contains_key(key) && hosts[key].generation
                        == registrations[i].generation) ==> !after[key].online
                        && after[key].version is None && after[key].protocol is None
                        && after[key].last_error is None && after[key].agents == Map::<
                        Seq<char>,
                        StoredAgentModel,
                    >::empty()
                }
        }),
{
    reconciled_hosts_are_the_registered_ones(hosts, registrations, key);
    assert forall|i: int|
        0 <= i < registrations.len() && (#[trigger] registrations[i]).key@ == key implies {
        let after = reconciled_hosts(hosts, registrations);
        let same = hosts.contains_key(key) && hosts[key].generation == registrations[i].generation;
        &&& after[key].label == registrations[i].label@
        &&& after[key].order == registrations[i].order
        &&& after[key].generation == registrations[i].generation
        &&& same ==> after[key] == (HostModel {
            label: registrations[i].label@,
            order: registrations[i].order,
            ..hosts[key]
        })
        &&& !same ==> after[key] == empty_host(registrations[i])
    } by {
        registration_keeps_or_renews_a_host(hosts, registrations, i);
    }
}

/// The hosts that are unavailable are the watched ones that are not online.
pub proof fn unavailable_hosts_are_those_not_online(hosts: Hosts, key: Seq<char>)
    ensures
        offline_hosts(hosts).contains(key) <==> hosts.contains_key(key) && !hosts[key].online,
{
}

/// A host that is new in the registrations is unavailable until it has reported itself, and again
/// once it cannot be reached; a report makes it available.
pub proof fn hosts_are_available_while_they_report(
    hosts: Hosts,
    key: Seq<char>,
    snapshot: SnapshotModel,
    error: Seq<char>,
    last: u64,
)
    requires
        hosts.contains_key(key),
    ensures
        !offline_hosts(
            hosts.insert(key, updated_host(hosts[key], UpdateModel::Snapshot(snapshot), last)),
        ).contains(key),
        offline_hosts(
            hosts.insert(key, updated_host(hosts[key], UpdateModel::Offline { error }, last)),
        ).contains(key),
{
}

/// A host that is online has reported its version and protocol, and has no error.
pub proof fn online_hosts_are_known(hosts: Hosts, key: Seq<char>)
    requires
        online_hosts_reported(hosts),
        hosts.contains_key(key),
        hosts[key].online,
    ensures
        hosts[key].version is Some,
        hosts[key].protocol is Some,
        hosts[key].last_error is None,
{
    reveal(online_hosts_reported);
    assert(reported_if_online(hosts[key]));
}

} // verus!
