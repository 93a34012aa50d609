//! Which watchers go on, are joined or are cancelled, and how sources are taken up.

use vstd::prelude::*;

use crate::config::{source_label, RemoteAgentSourceConfig};
use crate::remote_agents::supervisor::{
    cancels, goes_on, joins, may_start, needs_watcher, picked, registration_of, released, sound,
    source_key, supervised, supervised_first, wanted, SupervisorModel,
};

verus! {

/// The host of a source is known by its target and its session.
pub proof fn sources_are_known_by_target_and_session(source: RemoteAgentSourceConfig)
    ensures
        source_key(source) == source.target@ + seq!['\u{1f}'] + source.session@,
{
}

/// A host is wanted if and only if one of the sources is for it, whatever its label.
pub proof fn hosts_of_sources_are_wanted(
    sources: Seq<RemoteAgentSourceConfig>,
    key: Seq<char>,
    i: int,
)
    ensures
        0 <= i < sources.len() ==> wanted(
            sources,
            sources[i].target@ + seq!['\u{1f}'] + sources[i].session@,
        ),
        (forall|k: int|
            0 <= k < sources.len() ==> (#[trigger] sources[k]).target@ + seq!['\u{1f}']
                + sources[k].session@ != key) ==> !wanted(sources, key),
{
    if 0 <= i < sources.len() {
        sources_are_known_by_target_and_session(sources[i]);
    }
    if wanted(sources, key) {
        let k = choose|k: int| 0 <= k < sources.len() && source_key(#[trigger] sources[k]) == key;
        sources_are_known_by_target_and_session(sources[k]);
    }
}

/// Each watcher goes on, is joined or is cancelled, and only one of these: one that has finished is
/// joined, whether its host is wanted or not; one that has not goes on if its host is wanted, and
/// is cancelled otherwise.
pub proof fn watchers_go_on_end_or_are_cancelled(
    model: SupervisorModel,
    sources: Seq<RemoteAgentSourceConfig>,
    finished: Seq<u64>,
    key: Seq<char>,
)
    ensures
        ({
            let watched = model.watched.dom().contains(key);
            let ended = finished.contains(model.watched[key]);
            &&& !watched ==> !goes_on(model, sources, finished, key) && !joins(
                model,
                finished,
                key,
            ) && !cancels(model, sources, finished, key)
            &&& watched && ended ==> joins(model, finished, key) && !goes_on(
                model,
                sources,
                finished,
                key,
            ) && !cancels(model, sources, finished, key)
            &&& watched && !ended ==> !joins(model, finished, key) && goes_on(
                model,
                sources,
                finished,
                key,
            ) == wanted(sources, key) && cancels(model, sources, finished, key) == !wanted(
                sources,
                key,
            )
        }),
{
}

/// A watcher that has not finished and whose host is wanted is kept under its generation, and no
/// other is kept.
pub proof fn wanted_watchers_are_kept(
    model: SupervisorModel,
    sources: Seq<RemoteAgentSourceConfig>,
    finished: Seq<u64>,
    key: Seq<char>,
)
    ensures
        ({
            let kept = released(model, sources, finished);
            &&& kept.dom().contains(key) <==> model.watched.dom().contains(key)
                && !finished.contains(model.watched[key]) && wanted(sources, key)
            &&& kept.dom().contains(key) ==> kept[key] == model.watched[key]
        }),
{
}

/// A registration names the host and the label of its source, and the generation and the place that
/// it was given.
pub proof fn registrations_name_their_source(
    source: RemoteAgentSourceConfig,
    generation: u64,
    order: int,
)
    ensures
        registration_of(source, generation, order).key == source.target@ + seq!['\u{1f}']
            + source.session@,
        registration_of(source, generation, order).label == source_label(source),
        registration_of(source, generation, order).generation == generation,
        registration_of(source, generation, order).order == order,
{
}

/// A source whose host is watched is registered under the generation of its watcher, and nothing
/// else changes.
pub proof fn watched_sources_are_registered(
    model: SupervisorModel,
    source: RemoteAgentSourceConfig,
    order: int,
    starts: bool,
)
    requires
        model.watched.dom().contains(source_key(source)),
    ensures
        supervised(model, source, order, starts).0 == model,
        supervised(model, source, order, starts).1 == Some(
            registration_of(source, model.watched[source_key(source)], order),
        ),
{
}

/// A source whose host is not watched uses up the next generation, while there is one. It is
/// registered and watched under it if its watcher starts; otherwise nothing else changes.
pub proof fn new_sources_use_up_a_generation(
    model: SupervisorModel,
    source: RemoteAgentSourceConfig,
    order: int,
    starts: bool,
)
    requires
        !model.watched.dom().contains(source_key(source)),
    ensures
        ({
            let (after, registration) = supervised(model, source, order, starts);
            let left = model.next_generation < 0xffff_ffff_ffff_ffff;
            let key = source_key(source);
            &&& after.retired == model.retired
            &&& after.next_generation == if left {
                model.next_generation + 1
            } else {
                model.next_generation as int
            }
            &&& registration is Some <==> left && starts
            &&& registration is Some ==> registration == Some(
                registration_of(source, (model.next_generation + 1) as u64, order),
            )
            &&& left && starts ==> after.watched == model.watched.insert(
                key,
                (model.next_generation + 1) as u64,
            )
            &&& !(left && starts) ==> after.watched == model.watched
        }),
{
}

/// Sources are taken up one after the other, each at its place, from what those before it left.
pub proof fn sources_are_taken_up_in_turn(
    model: SupervisorModel,
    sources: Seq<RemoteAgentSourceConfig>,
    starts: Seq<bool>,
    i: int,
)
    requires
        0 <= i < sources.len(),
    ensures
        ({
            let before = supervised_first(model, sources, starts, i);
            let after = supervised_first(model, sources, starts, i + 1);
            let (next, registration) = supervised(before.0, sources[i], i, starts[i]);
            &&& supervised_first(model, sources, starts, 0).0 == model
            &&& supervised_first(model, sources, starts, 0).1.len() == 0
            &&& after.0 == next
            &&& registration is None ==> after.1 == before.1
            &&& registration matches Some(r) ==> after.1 == before.1.push(r)
        }),
{
}

/// A watcher is started for a source if and only if its host is not watched when its turn comes and
/// there is a generation left; a start is for a source, under its host and a new generation.
pub proof fn watchers_are_started_for_new_hosts(
    model: SupervisorModel,
    sources: Seq<RemoteAgentSourceConfig>,
    starts: Seq<bool>,
    i: int,
    generation: u64,
)
    requires
        0 <= i < sources.len(),
    ensures
        ({
            let before = supervised_first(model, sources, starts, i).0;
            let key = source_key(sources[i]);
            &&& needs_watcher(model, sources, starts, i) <==> !before.watched.dom().contains(key)
                && before.next_generation < 0xffff_ffff_ffff_ffff
            &&& may_start(model, sources, sources[i], key, generation)
                <==> !model.watched.dom().contains(key) && generation > model.next_generation
        }),
{
    assert(sources.contains(sources[i]));
}

/// No watcher is started for what is not a source, or under another host than that of its source.
pub proof fn no_other_watchers_are_started(
    model: SupervisorModel,
    sources: Seq<RemoteAgentSourceConfig>,
    source: RemoteAgentSourceConfig,
    key: Seq<char>,
    generation: u64,
)
    requires
        may_start(model, sources, source, key, generation),
    ensures
        exists|i: int| 0 <= i < sources.len() && #[trigger] sources[i] == source,
        key == source.target@ + seq!['\u{1f}'] + source.session@,
{
    let i = choose|i: int| 0 <= i < sources.len() && sources[i] == source;
    assert(sources[i] == source);
}

/// The generations that are picked are those of the watchers that pass the test, and no others.
pub proof fn picked_generations_pass_the_test(
    generations: Seq<u64>,
    watched: Map<Seq<char>, u64>,
    test: spec_fn(Seq<char>) -> bool,
    key: Seq<char>,
    generation: u64,
)
    requires
        picked(generations, watched, test),
    ensures
        watched.dom().contains(key) && test(key) ==> generations.contains(watched[key]),
        generations.contains(generation) ==> exists|k: Seq<char>| #[trigger]
            watched.dom().contains(k) && test(k) && watched[k] == generation,
{
}

/// A sound supervisor uses no generation twice, neither for two hosts nor for a host and a retired
/// watcher, and none that it has not given yet.
pub proof fn generations_are_used_once(
    model: SupervisorModel,
    a: Seq<char>,
    b: Seq<char>,
    i: int,
    j: int,
)
    requires
        sound(model),
    ensures
        model.watched.dom().contains(a) ==> model.watched[a] <= model.next_generation,
        model.watched.dom().contains(a) && model.watched.dom().contains(b) && a != b
            ==> model.watched[a] != model.watched[b],
        0 <= i < model.retired.len() ==> model.retired[i] <= model.next_generation,
        0 <= i < model.retired.len() && model.watched.dom().contains(a) ==> model.retired[i]
            != model.watched[a],
        0 <= i < j < model.retired.len() ==> model.retired[i] != model.retired[j],
{
    if 0 <= i < model.retired.len() {
        assert(model.retired.contains(model.retired[i]));
    }
}

} // verus!
