//! What the operations on remote agents give back and leave behind, whatever way they take.

use std::sync::atomic::AtomicBool;
use std::sync::Arc;

use vstd::prelude::*;
use vstd::string::*;

use crate::config::{source_label, RemoteAgentSourceConfig};
use crate::detect::AgentLabel;
use crate::events::Delivery;
use crate::remote_agents::command::{
    kill_order, quoted_text_reads_back, remote_snapshot_script, shell_quote, shell_reading,
    snapshot_stream_command, Quoting, ShellWord, SnapshotCommand,
};
use crate::remote_agents::command_laws::{sessions_are_named_at_the_start, target_is_one_argument};
use crate::remote_agents::fleet::{
    fleet_fault, parse_snapshot_line, response_fault, snapshot_for_fleet, FleetResponseResult,
    FleetSessionSnapshot, FleetSuccessResponse,
};
use crate::remote_agents::fleet_laws::{
    agents_are_shown_under_their_workspace, agents_keep_their_own_texts,
};
use crate::remote_agents::host::{
    RemoteAgentUpdate, RemoteAgentUpdateKind, RemoteHostKey, RemoteHostRegistration,
};
use crate::remote_agents::input::{read_bounded_line, read_capped_stderr, LineRead};
use crate::remote_agents::input_laws::{
    errors_are_kept_up_to_the_limit, lines_go_on_to_the_newline, lines_without_newline_go_on,
    only_line_ends_are_taken_off,
};
use crate::remote_agents::panel_laws::{
    rows_go_by_host_workspace_tab_and_pane, rows_show_what_is_stored,
};
use crate::remote_agents::presentation::{
    same_presentation, RemoteAgentPresentation, RemoteAgentSnapshot,
};
use crate::remote_agents::registry::{
    next_sequence, offline_hosts, reconcile_changes, reconciled_hosts, row_models, updated_host,
    updated_sequence, RemoteAgentRegistry, RemotePanelAgent,
};
use crate::remote_agents::sanitize::sanitized;
use crate::remote_agents::stream::{
    join_reader, start_failed, JoinStep, SnapshotStream, StartFailure, StreamEnd, StreamEvent,
    StreamOutcome, StreamStep,
};
use crate::remote_agents::supervisor::{
    source_key, wanted, RegisterStep, Released, RemoteAgentSupervisor,
};
use crate::remote_agents::watcher::{cancelable_sleep, ReportStep, SleepStep, WatchStep, Watcher};
use crate::text::{text_less, views};

verus! {

/// A session that is accepted gives one agent for each that it reports, in their order, under their
/// identifiers and under the label of the workspace that they are in; a session is refused if and
/// only if there is a complaint about it, with that complaint.
pub proof fn accepted_sessions_give_their_agents(
    snapshot: FleetSessionSnapshot,
    known: Vec<AgentLabel>,
    result: Result<RemoteAgentSnapshot, String>,
    i: int,
    w: int,
)
    requires
        call_ensures(snapshot_for_fleet, (snapshot, &known), result),
    ensures
        result is Err <==> fleet_fault(snapshot) is Some,
        result matches Err(error) ==> fleet_fault(snapshot) == Some(error@),
        result matches Ok(accepted) ==> accepted.agents@.len() == snapshot.agents@.len(),
        result matches Ok(accepted) ==> accepted.protocol == snapshot.protocol && accepted.version@
            == sanitized(snapshot.version@, 256),
        result matches Ok(accepted) ==> (0 <= i < snapshot.agents@.len() && 0 <= w
            < snapshot.workspaces@.len() && snapshot.workspaces@[w].workspace_id@
            == snapshot.agents@[i].workspace_id@ ==> {
            let shown = accepted.agents@[i];
            let info = snapshot.agents@[i];
            &&& shown.workspace_id@ == info.workspace_id@
            &&& shown.tab_id@ == info.tab_id@
            &&& shown.pane_id@ == info.pane_id@
            &&& shown.workspace_label@ == sanitized(snapshot.workspaces@[w].label@, 256)
            &&& shown.order.0 == w
            &&& shown.display_order.0 == w
        }),
{
    if let Ok(accepted) = result {
        assert(accepted@.agents.len() == accepted.agents@.len());
        if 0 <= i < snapshot.agents@.len() && 0 <= w < snapshot.workspaces@.len()
            && snapshot.workspaces@[w].workspace_id@ == snapshot.agents@[i].workspace_id@ {
            agents_are_shown_under_their_workspace(snapshot, known@, i, w);
            agents_keep_their_own_texts(snapshot, known@, i);
            assert(accepted@.agents[i] == accepted.agents@[i]@);
        }
    }
}

/// A line is accepted if and only if there is no complaint about its answer, and gives what the
/// session in the answer gives.
pub proof fn answers_give_their_sessions(
    response: Result<FleetSuccessResponse, String>,
    known: Vec<AgentLabel>,
    line: Result<RemoteAgentSnapshot, String>,
    whole: Result<RemoteAgentSnapshot, String>,
)
    requires
        call_ensures(parse_snapshot_line, (response, &known), line),
        response matches Ok(answer) && (answer.result matches FleetResponseResult::SessionSnapshot {
            snapshot,
        } && call_ensures(snapshot_for_fleet, (snapshot, &known), whole)),
    ensures
        line is Ok <==> response_fault(response) is None,
        line matches Err(error) ==> response_fault(response) == Some(error@),
        line is Ok && whole is Ok ==> line->Ok_0@ == whole->Ok_0@,
{
}

/// Rows come host by host; within a host they go by workspace, tab and pane; each shows an agent
/// that is stored of its host.
pub proof fn panels_go_by_host_and_place(
    registry: RemoteAgentRegistry,
    rows: Vec<RemotePanelAgent>,
    i: int,
    j: int,
)
    requires
        call_ensures(RemoteAgentRegistry::panel_agents, (&registry,), rows),
        0 <= i < j < rows@.len(),
    ensures
        rows@[i].host_order <= rows@[j].host_order,
        rows@[i].host_order == rows@[j].host_order && rows@[i].host_key@ != rows@[j].host_key@
            ==> text_less(rows@[i].host_key@, rows@[j].host_key@),
        rows@[i].host_key@ == rows@[j].host_key@ ==> {
            let a = rows@[i].presentation.display_order;
            let b = rows@[j].presentation.display_order;
            &&& a.0 <= b.0
            &&& a.0 == b.0 ==> a.1 <= b.1
            &&& a.0 == b.0 && a.1 == b.1 ==> a.2 <= b.2
        },
        registry@.contains_key(rows@[i].host_key@),
        registry@[rows@[i].host_key@].agents.contains_key(rows@[i].presentation.pane_id@),
        ({
            let agents = registry@[rows@[i].host_key@].agents;
            rows@[i].presentation@ == agents[rows@[i].presentation.pane_id@].presentation
        }),
{
    let models = row_models(rows@);
    assert(models[i] == rows@[i]@ && models[j] == rows@[j]@);
    rows_go_by_host_workspace_tab_and_pane(models, registry@, i, j);
    rows_show_what_is_stored(models, registry@, i);
}

/// The count of unavailable hosts is that of the watched hosts that are not online.
pub proof fn unavailable_hosts_are_counted(
    registry: RemoteAgentRegistry,
    count: usize,
    offline: Set<Seq<char>>,
)
    requires
        call_ensures(RemoteAgentRegistry::unavailable_source_count, (&registry,), count),
        forall|key: Seq<char>| #[trigger]
            offline.contains(key) <==> registry@.contains_key(key) && !registry@[key].online,
    ensures
        count == offline.len(),
{
    assert(offline =~= offline_hosts(registry@));
}

/// A reconciliation watches the hosts of the registrations, and says whether that changed anything.
pub proof fn reconciliations_follow_the_registrations(
    registry: &mut RemoteAgentRegistry,
    registrations: &[RemoteHostRegistration],
    changed: bool,
)
    requires
        call_ensures(RemoteAgentRegistry::reconcile, (registry, registrations), changed),
    ensures
        final(registry)@ == reconciled_hosts(old(registry)@, registrations@),
        changed == reconcile_changes(old(registry)@, registrations@),
{
}

/// An update for a watched host and its generation changes that host and no other, as the kind of
/// the update says; any other update changes nothing. What it says of changes is true.
pub proof fn updates_change_their_host_only(
    registry: &mut RemoteAgentRegistry,
    update: RemoteAgentUpdate,
    next: &mut u64,
    changed: bool,
    key: Seq<char>,
)
    requires
        call_ensures(RemoteAgentRegistry::apply_update, (registry, update, next), changed),
    ensures
        ({
            let before = old(registry)@;
            let after = final(registry)@;
            let host = update.host@;
            let taken = before.contains_key(host) && before[host].generation == update.generation;
            &&& changed <==> after != before
            &&& !taken ==> after == before && *final(next) == *old(next)
            &&& taken ==> after.contains_key(host) && after[host] == updated_host(
                before[host],
                update.kind@,
                *old(next),
            ) && *final(next) == updated_sequence(before[host], update.kind@, *old(next))
            &&& key != host ==> (after.contains_key(key) <==> before.contains_key(key)) && (
            before.contains_key(key) ==> after[key] == before[key])
        }),
{
}

/// Watchers that have finished are joined, those that have not and whose hosts are gone are
/// retired, and the others stay as they are.
pub proof fn releases_sort_the_watchers(
    supervisor: &mut RemoteAgentSupervisor,
    sources: Vec<RemoteAgentSourceConfig>,
    finished: Vec<u64>,
    result: Released,
    key: Seq<char>,
)
    requires
        call_ensures(RemoteAgentSupervisor::release, (supervisor, &sources, &finished), result),
        old(supervisor)@.watched.dom().contains(key),
    ensures
        ({
            let before = old(supervisor)@;
            let after = final(supervisor)@;
            let generation = before.watched[key];
            let ended = finished@.contains(generation);
            &&& after.next_generation == before.next_generation
            &&& after.retired == before.retired + result.cancelled@
            &&& ended ==> result.joined@.contains(generation) && !after.watched.dom().contains(key)
            &&& !ended && wanted(sources@, key) ==> after.watched.dom().contains(key)
                && after.watched[key] == generation
            &&& !ended && !wanted(sources@, key) ==> result.cancelled@.contains(generation)
                && !after.watched.dom().contains(key)
        }),
{
}

/// Of the retired watchers those that have finished are joined, and the others stay.
pub proof fn finished_watchers_are_reaped(
    supervisor: &mut RemoteAgentSupervisor,
    finished: Vec<u64>,
    joined: Vec<u64>,
    generation: u64,
)
    requires
        call_ensures(RemoteAgentSupervisor::reap, (supervisor, &finished), joined),
    ensures
        ({
            let before = old(supervisor)@;
            let after = final(supervisor)@;
            &&& after.watched == before.watched
            &&& after.next_generation == before.next_generation
            &&& joined@.contains(generation) <==> before.retired.contains(generation)
                && finished@.contains(generation)
            &&& after.retired.contains(generation) <==> before.retired.contains(generation)
                && !finished@.contains(generation)
        }),
{
    let before = old(supervisor)@.retired;
    let ended = |g: u64| finished@.contains(g);
    let running = |g: u64| !finished@.contains(g);
    lemma_filter_contains(before, ended, generation);
    lemma_filter_contains(before, running, generation);
}

proof fn lemma_filter_contains(items: Seq<u64>, test: spec_fn(u64) -> bool, item: u64)
    ensures
        items.filter(test).contains(item) <==> items.contains(item) && test(item),
    decreases items.len(),
{
    reveal(Seq::filter);
    if items.len() > 0 {
        let rest = items.drop_last();
        lemma_filter_contains(rest, test, item);
        let kept = items.filter(test);
        if items.contains(item) {
            let i = choose|i: int| 0 <= i < items.len() && items[i] == item;
            if i < rest.len() {
                assert(rest[i] == item);
            }
        }
        if rest.contains(item) {
            let i = choose|i: int| 0 <= i < rest.len() && rest[i] == item;
            assert(items[i] == item);
        }
        if test(items.last()) {
            let before = rest.filter(test);
            assert(kept == before.push(items.last()));
            assert(kept[before.len() as int] == items.last());
            assert(items[items.len() - 1] == items.last());
            if before.contains(item) {
                let i = choose|i: int| 0 <= i < before.len() && before[i] == item;
                assert(kept[i] == item);
            }
            if kept.contains(item) {
                let i = choose|i: int| 0 <= i < kept.len() && kept[i] == item;
                if i < before.len() {
                    assert(before[i] == item);
                }
            }
        }
    }
}

/// A source whose host is watched is registered as it is; one whose host is not is given the next
/// generation, while there is one.
pub proof fn sources_are_registered_or_started(
    supervisor: &mut RemoteAgentSupervisor,
    order: usize,
    source: RemoteAgentSourceConfig,
    step: RegisterStep,
)
    requires
        call_ensures(RemoteAgentSupervisor::register, (supervisor, order, &source), step),
    ensures
        ({
            let before = old(supervisor)@;
            let after = final(supervisor)@;
            let key = source.target@ + seq!['\u{1f}'] + source.session@;
            let watched = before.watched.dom().contains(key);
            &&& after.watched == before.watched
            &&& after.retired == before.retired
            &&& watched <==> step is Registered
            &&& step matches RegisterStep::Registered { registration } ==> registration.key@ == key
                && registration.label@ == source_label(source) && registration.order == order
                && registration.generation == before.watched[key] && after.next_generation
                == before.next_generation
            &&& step is Exhausted <==> !watched && before.next_generation == 0xffff_ffff_ffff_ffff
            &&& step matches RegisterStep::Spawn { key: host, generation } ==> host@ == key
                && generation == before.next_generation + 1 && after.next_generation == generation
        }),
{
    assert(source_key(source) =~= source.target@ + seq!['\u{1f}'] + source.session@);
}

/// A watcher that was started is taken up under the host of its source, and registered with its
/// label and place.
pub proof fn started_watchers_are_taken_up(
    supervisor: &mut RemoteAgentSupervisor,
    order: usize,
    source: RemoteAgentSourceConfig,
    generation: u64,
    registration: RemoteHostRegistration,
)
    requires
        call_ensures(
            RemoteAgentSupervisor::take_up,
            (supervisor, order, &source, generation),
            registration,
        ),
    ensures
        ({
            let key = source.target@ + seq!['\u{1f}'] + source.session@;
            &&& final(supervisor)@.watched == old(supervisor)@.watched.insert(key, generation)
            &&& final(supervisor)@.retired == old(supervisor)@.retired
            &&& final(supervisor)@.next_generation == old(supervisor)@.next_generation
            &&& registration.key@ == key
            &&& registration.label@ == source_label(source)
            &&& registration.generation == generation
            &&& registration.order == order
        }),
{
    assert(source_key(source) =~= source.target@ + seq!['\u{1f}'] + source.session@);
}

/// A supervisor that is shut down gives up every watcher, running or retired, and keeps none.
pub proof fn shutdowns_give_up_every_watcher(
    supervisor: &mut RemoteAgentSupervisor,
    all: Vec<u64>,
    key: Seq<char>,
    generation: u64,
)
    requires
        call_ensures(RemoteAgentSupervisor::shut_down, (supervisor,), all),
    ensures
        !final(supervisor)@.watched.dom().contains(key),
        final(supervisor)@.retired.len() == 0,
        final(supervisor)@.next_generation == old(supervisor)@.next_generation,
        old(supervisor)@.watched.dom().contains(key) ==> all@.contains(
            old(supervisor)@.watched[key],
        ),
        old(supervisor)@.retired.contains(generation) ==> all@.contains(generation),
{
}

/// After a stream a watcher stops where it or the stream was cancelled. Otherwise it reports its
/// host, logs the error if it is another one or five minutes old, and starts its delays anew after
/// a stream that brought a snapshot.
pub proof fn watchers_go_on_after_streams(
    watcher: &mut Watcher,
    outcome: StreamOutcome,
    cancel: bool,
    now: u64,
    step: WatchStep,
)
    requires
        call_ensures(Watcher::after_stream, (watcher, &outcome, cancel, now), step),
    ensures
        ({
            let before = *old(watcher);
            let after = *final(watcher);
            let known = before.last_logged_error matches Some(last) && last@ == outcome.error@;
            let recent = before.last_error_log_at matches Some(at) && now < at + 300_000_000_000;
            &&& cancel || outcome.cancelled ==> step is Stop && after == before
            &&& !cancel && !outcome.cancelled ==> step == (WatchStep::Report {
                log: !(known && recent),
            })
            &&& step is Report ==> after.reconnect_delay == if outcome.received_snapshot {
                1_000_000_000
            } else {
                before.reconnect_delay
            }
            &&& step is Report && !(known && recent) ==> after.last_error_log_at == Some(now)
                && after.last_logged_error is Some && after.last_logged_error->0@ == outcome.error@
            &&& step is Report && known && recent ==> after.last_error_log_at
                == before.last_error_log_at && after.last_logged_error == before.last_logged_error
        }),
{
}

/// After a rest a watcher waits twice as long, up to half a minute, and has logged what it had.
pub proof fn rests_grow_longer(watcher: &mut Watcher)
    requires
        call_ensures(Watcher::after_rest, (watcher,), ()),
    ensures
        old(watcher).reconnect_delay <= 15_000_000_000 ==> final(watcher).reconnect_delay == 2
            * old(watcher).reconnect_delay,
        old(watcher).reconnect_delay >= 15_000_000_000 ==> final(watcher).reconnect_delay
            == 30_000_000_000,
        final(watcher).last_logged_error == old(watcher).last_logged_error,
        final(watcher).last_error_log_at == old(watcher).last_error_log_at,
{
}

/// A new watcher waits for a second and has logged nothing; a report is offered again while it is
/// held back.
pub proof fn watchers_start_with_a_second(
    watcher: Watcher,
    delivery: Delivery,
    step: ReportStep,
)
    requires
        call_ensures(Watcher::new, (), watcher),
        call_ensures(Watcher::after_offer, (&watcher, delivery), step),
    ensures
        watcher.last_logged_error is None,
        watcher.last_error_log_at is None,
        delivery is Held ==> step == (ReportStep::Retry { pause: 100_000_000 }),
        delivery is Closed ==> step is Stop,
        delivery is Sent || delivery is Full ==> step == (ReportStep::Rest {
            pause: 1_000_000_000,
        }),
{
}

/// A sleep ends when it is cancelled or its deadline has come, and looks up every tenth of a
/// second; a reader is joined once it has finished, and left alone after its deadline.
pub proof fn waits_end_in_time(
    flag: bool,
    now: u64,
    deadline: u64,
    sleep: SleepStep,
    join: JoinStep,
)
    requires
        call_ensures(cancelable_sleep, (flag, now, deadline), sleep),
        call_ensures(join_reader, (flag, now, deadline), join),
    ensures
        flag ==> sleep == (SleepStep::Done { cancelled: true }) && join is Join,
        !flag && now >= deadline ==> sleep == (SleepStep::Done { cancelled: false }) && join
            is Detach,
        !flag && now < deadline ==> join == (JoinStep::Wait { pause: 10_000_000 }) && (
        sleep matches SleepStep::Sleep { pause } && 0 < pause <= 100_000_000 && now + pause
            <= deadline && (pause == 100_000_000 || now + pause == deadline)),
{
}

/// A stream that is cancelled or disconnected, or that fails, stops and says so; one that is quiet
/// waits until it has brought no snapshot for twelve seconds. None of this changes the stream.
pub proof fn streams_stop_or_wait(
    stream: &mut SnapshotStream,
    event: StreamEvent,
    now: u64,
    step: StreamStep,
)
    requires
        call_ensures(SnapshotStream::on_event, (stream, event, now), step),
        !(event is Line),
    ensures
        *final(stream) == *old(stream),
        event is Cancelled ==> step == (StreamStep::Stop { end: StreamEnd::Cancelled }),
        event is Disconnected ==> step == (StreamStep::Stop { end: StreamEnd::Disconnected }),
        event matches StreamEvent::Failed { error } ==> step == (StreamStep::Stop {
            end: StreamEnd::Failed { error },
        }),
        event is Quiet && now < old(stream).last_output + 12_000_000_000 ==> step is Wait,
        event is Quiet && now >= old(stream).last_output + 12_000_000_000 ==> (
        step matches StreamStep::Stop { end: StreamEnd::Failed { error } } && error@
            == "remote snapshot stream timed out"@),
{
}

/// The first line of a stream is parsed, as is every line half a second after the line before it;
/// one that follows the last parsed line within half a second is not.
pub proof fn streams_parse_lines_apart(
    stream: &mut SnapshotStream,
    now: u64,
    step: StreamStep,
)
    requires
        call_ensures(SnapshotStream::on_event, (stream, StreamEvent::Line, now), step),
    ensures
        old(stream).line_run is None && old(stream).last_processed is None ==> step is Parse,
        old(stream).last_processed matches Some(last) ==> (now < last + 500_000_000 ==> !(step
            is Parse)),
        step is Parse ==> final(stream).last_processed == Some(now),
        !(step is Parse) ==> final(stream).last_processed == old(stream).last_processed,
        final(stream).last_output == old(stream).last_output,
        final(stream).received_snapshot == old(stream).received_snapshot,
        step is Parse || step is Wait || step is Stop,
        old(stream).line_run matches Some(run) ==> (step is Stop <==> now < run.last + 500_000_000
            && now >= run.started + 12_000_000_000),
{
}

/// A snapshot is offered as it was parsed, and counts as output; an error ends the stream.
pub proof fn parsed_snapshots_are_offered(
    stream: &mut SnapshotStream,
    parsed: Result<RemoteAgentSnapshot, String>,
    now: u64,
    step: StreamStep,
)
    requires
        call_ensures(SnapshotStream::on_parsed, (stream, parsed, now), step),
    ensures
        parsed matches Ok(snapshot) ==> step == (StreamStep::Offer { snapshot })
            && final(stream).last_output == now && final(stream).received_snapshot,
        parsed matches Err(error) ==> step == (StreamStep::Stop {
            end: StreamEnd::Failed { error },
        }) && *final(stream) == *old(stream),
        final(stream).last_processed == old(stream).last_processed,
        final(stream).line_run == old(stream).line_run,
{
}

/// A stream is cancelled only where it was told so, has brought a snapshot where it says so, and
/// shows its error in at most 256 characters. One that did not start has brought none.
pub proof fn outcomes_say_how_streams_ended(
    stream: SnapshotStream,
    end: StreamEnd,
    stderr: &str,
    outcome: StreamOutcome,
    failure: StartFailure,
    unstarted: StreamOutcome,
)
    requires
        call_ensures(SnapshotStream::outcome, (&stream, end, stderr), outcome),
        call_ensures(start_failed, (&failure,), unstarted),
    ensures
        outcome.cancelled <==> end is Cancelled,
        outcome.received_snapshot == stream.received_snapshot,
        end is Cancelled ==> outcome.error@.len() == 0,
        end matches StreamEnd::Failed { error } ==> outcome.error@ == sanitized(error@, 256),
        end is Disconnected && stderr@.len() > 0 ==> outcome.error@ == sanitized(
            "ssh snapshot stream disconnected: "@ + stderr@,
            256,
        ),
        !unstarted.cancelled,
        !unstarted.received_snapshot,
        failure matches StartFailure::Ssh { error } ==> unstarted.error@
            == "failed to start ssh: "@ + error@,
{
}

/// A reader gives the line up to the first newline, without line ends, and has then nothing of it
/// left; without a newline it keeps what it has read.
pub proof fn readers_give_whole_lines(
    line: &mut Vec<u8>,
    available: &[u8],
    max_bytes: usize,
    read: Result<LineRead, String>,
    at: int,
)
    requires
        call_ensures(read_bounded_line, (line, available, max_bytes), read),
        0 <= at <= available@.len(),
        forall|i: int| 0 <= i < at ==> #[trigger] available@[i] != 10,
        at < available@.len() ==> available@[at] == 10,
    ensures
        at < available@.len() && old(line)@.len() + at < max_bytes ==> (
        read matches Ok(LineRead::Line { consumed, line: content }) && consumed == at + 1
            && content@.len() <= old(line)@.len() + at && content@ == (old(line)@
            + available@.take(at)).take(content@.len() as int)) && final(line)@.len() == 0,
        at == available@.len() && at > 0 && old(line)@.len() + at <= max_bytes ==> read == Ok::<
            LineRead,
            String,
        >(LineRead::More) && final(line)@ == old(line)@ + available@,
        at < available@.len() && old(line)@.len() + at >= max_bytes ==> read is Err,
        at == available@.len() && at > 0 && old(line)@.len() + at > max_bytes ==> read is Err,
{
    if at < available@.len() {
        lines_go_on_to_the_newline(old(line)@, available@, at, max_bytes as nat);
        only_line_ends_are_taken_off(old(line)@ + available@.take(at));
    } else {
        lines_without_newline_go_on(old(line)@, available@, max_bytes as nat);
    }
}

/// An error text is read on while less than 32 kibibytes of it are kept.
pub proof fn errors_are_read_up_to_the_limit(stored: &mut Vec<u8>, chunk: &[u8], more: bool)
    requires
        call_ensures(read_capped_stderr, (stored, chunk), more),
        old(stored)@.len() <= 32_768,
    ensures
        old(stored)@.len() + chunk@.len() <= 32_768 ==> final(stored)@ == old(stored)@ + chunk@,
        old(stored)@.len() + chunk@.len() > 32_768 ==> final(stored)@ == (old(stored)@
            + chunk@).take(32_768),
        more <==> final(stored)@.len() < 32_768,
{
    errors_are_kept_up_to_the_limit(old(stored)@, chunk@);
}

/// A command runs ssh with the target of its source as the last argument but one; processes are
/// killed from the highest id down, those of the session or else the child.
pub proof fn commands_name_their_target(
    source: RemoteAgentSourceConfig,
    command: SnapshotCommand,
    session_pids: Vec<u32>,
    child: u32,
    pids: Vec<u32>,
    i: int,
    j: int,
)
    requires
        call_ensures(snapshot_stream_command, (&source,), command),
        call_ensures(kill_order, (&session_pids, child), pids),
    ensures
        command.program@ == "ssh"@,
        command.args@.len() == 38,
        command.args@[36]@ == source.target@,
        command.args@[35]@ == "--"@,
        0 <= i < j < pids@.len() ==> pids@[i] > pids@[j],
        session_pids@.len() == 0 ==> pids@.contains(child),
        0 <= i < session_pids@.len() ==> pids@.contains(session_pids@[i]),
        0 <= i < pids@.len() && session_pids@.len() > 0 ==> session_pids@.contains(pids@[i]),
        0 <= i < pids@.len() && session_pids@.len() == 0 ==> pids@[i] == child,
{
    let args = views(command.args@);
    target_is_one_argument(source.target@, source.target@);
    assert(args.len() == command.args@.len());
    assert(args[36] == command.args@[36]@ && args[35] == command.args@[35]@);
    if 0 <= i < session_pids@.len() {
        assert(session_pids@.contains(session_pids@[i]));
    }
    if 0 <= i < pids@.len() {
        assert(pids@.contains(pids@[i]));
    }
}

/// An update that was claimed carries its host, its generation, its kind and the mark that it
/// holds; one that is immediate carries the same and holds no mark. None is made where the mark was taken.
pub proof fn updates_carry_what_they_are_for(
    claimed: bool,
    host: RemoteHostKey,
    generation: u64,
    kind: RemoteAgentUpdateKind,
    pending: Arc<AtomicBool>,
    update: Option<RemoteAgentUpdate>,
    immediate: RemoteAgentUpdate,
)
    requires
        call_ensures(
            RemoteAgentUpdate::claim_if,
            (claimed, host, generation, kind, &pending),
            update,
        ),
        call_ensures(RemoteAgentUpdate::immediate, (host, generation, kind), immediate),
    ensures
        update is Some <==> claimed,
        update matches Some(made) ==> made.host == host && made.generation == generation
            && made.kind == kind && made.completion == Some(pending),
        immediate.host == host,
        immediate.generation == generation,
        immediate.kind == kind,
        immediate.completion is None,
{
}

/// The next number of a sequence is one higher, while there is one, and is where the sequence then
/// stands.
pub proof fn numbers_are_taken_in_turn(next: &mut u64, taken: u64)
    requires
        call_ensures(next_sequence, (next,), taken),
    ensures
        *old(next) < 0xffff_ffff_ffff_ffff ==> taken == *old(next) + 1,
        *old(next) == 0xffff_ffff_ffff_ffff ==> taken == *old(next),
        *final(next) == taken,
{
}

/// A stream goes on after an offer while there is an app.
pub proof fn streams_go_on_after_offers(
    stream: SnapshotStream,
    delivery: Delivery,
    step: StreamStep,
    started: SnapshotStream,
    now: u64,
)
    requires
        call_ensures(SnapshotStream::on_offered, (&stream, delivery), step),
        call_ensures(SnapshotStream::start, (now,), started),
    ensures
        delivery is Closed ==> step == (StreamStep::Stop { end: StreamEnd::Cancelled }),
        !(delivery is Closed) ==> step is Wait,
        started.last_output == now,
        started.last_processed is None,
        started.line_run is None,
        !started.received_snapshot,
{
}

/// The script names its session first, quoted so that a shell reads it back as it is.
pub proof fn scripts_name_their_session(session: &str, script: String, quoted: String)
    requires
        call_ensures(remote_snapshot_script, (session,), script),
        call_ensures(shell_quote, (session,), quoted),
    ensures
        ({
            let start = "fleet_session="@ + quoted@;
            script@.len() >= start.len() && script@.take(start.len() as int) == start
        }),
        shell_reading(quoted@) == (ShellWord {
            quoting: Quoting::Bare,
            text: session@,
            literal: true,
        }),
{
    sessions_are_named_at_the_start(session@, session@);
    quoted_text_reads_back(session@);
}

/// Of two presentations that count as the same every field is the same.
pub proof fn same_presentations_agree(
    a: RemoteAgentPresentation,
    b: RemoteAgentPresentation,
    same: bool,
)
    requires
        call_ensures(same_presentation, (&a, &b), same),
    ensures
        same <==> a@ == b@,
        same ==> a.pane_id@ == b.pane_id@ && a.state == b.state && a.seen == b.seen
            && a.agent_label@ == b.agent_label@ && a.workspace_label@ == b.workspace_label@
            && a.tokens@ == b.tokens@ && a.state_labels@ == b.state_labels@,
{
}

} // verus!
