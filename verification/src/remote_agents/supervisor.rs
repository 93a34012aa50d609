//! Which watchers run: one for each configured source, each under a generation of its own that is
//! never given twice. The threads themselves are known here by their generations only.

use vstd::prelude::*;

use crate::config::{source_label, RemoteAgentSourceConfig};
use crate::ordered_map::{
    entries_map, key_position, keys_ascend, lemma_entry_found, lemma_key_found, OrderedMap,
};
use crate::remote_agents::host::{host_key, RemoteHostKey, RemoteHostRegistration};
use crate::text::same_text;

verus! {

/// The watchers of all sources.
#[derive(Debug, PartialEq, Eq)]
pub struct RemoteAgentSupervisor {
    /// The generation of the watcher of each host.
    watchers: OrderedMap<u64>,
    /// The generations of cancelled watchers that may still be running.
    retired: Vec<u64>,
    /// The generation that was given last.
    next_generation: u64,
}

/// The watchers of all sources, as mathematical values.
pub struct SupervisorModel {
    pub watched: Map<Seq<char>, u64>,
    pub retired: Seq<u64>,
    pub next_generation: u64,
}

impl View for RemoteAgentSupervisor {
    type V = SupervisorModel;

    closed spec fn view(&self) -> SupervisorModel {
        SupervisorModel {
            watched: self.watchers@,
            retired: self.retired@,
            next_generation: self.next_generation,
        }
    }
}

/// Every generation in use was given, and none is in use twice.
pub open spec fn sound(model: SupervisorModel) -> bool {
    &&& forall|key: Seq<char>| #[trigger]
        model.watched.dom().contains(key) ==> model.watched[key] <= model.next_generation
            && !model.retired.contains(model.watched[key])
    &&& forall|a: Seq<char>, b: Seq<char>| #[trigger]
        model.watched.dom().contains(a) && #[trigger] model.watched.dom().contains(b) && a != b
            ==> model.watched[a] != model.watched[b]
    &&& forall|i: int|
        0 <= i < model.retired.len() ==> #[trigger] model.retired[i] <= model.next_generation
    &&& model.retired.no_duplicates()
}

/// A generation that was given and is not in use.
pub open spec fn unused(model: SupervisorModel, generation: u64) -> bool {
    &&& generation <= model.next_generation
    &&& !model.retired.contains(generation)
    &&& forall|key: Seq<char>| #[trigger]
        model.watched.dom().contains(key) ==> model.watched[key] != generation
}

pub open spec fn source_key(source: RemoteAgentSourceConfig) -> Seq<char> {
    host_key(source.target@, source.session@)
}

/// Whether a host is among the sources.
pub open spec fn wanted(sources: Seq<RemoteAgentSourceConfig>, key: Seq<char>) -> bool {
    exists|i: int| 0 <= i < sources.len() && source_key(#[trigger] sources[i]) == key
}

/// Whether a watcher goes on: it has not finished, and its host is still among the sources.
pub open spec fn goes_on(
    model: SupervisorModel,
    sources: Seq<RemoteAgentSourceConfig>,
    finished: Seq<u64>,
    key: Seq<char>,
) -> bool {
    &&& model.watched.dom().contains(key)
    &&& !finished.contains(model.watched[key])
    &&& wanted(sources, key)
}

/// Whether a watcher is to be joined: it has finished.
pub open spec fn joins(model: SupervisorModel, finished: Seq<u64>, key: Seq<char>) -> bool {
    model.watched.dom().contains(key) && finished.contains(model.watched[key])
}

/// Whether a watcher is to be cancelled: it is still running for a host that is gone from the
/// sources.
pub open spec fn cancels(
    model: SupervisorModel,
    sources: Seq<RemoteAgentSourceConfig>,
    finished: Seq<u64>,
    key: Seq<char>,
) -> bool {
    &&& model.watched.dom().contains(key)
    &&& !finished.contains(model.watched[key])
    &&& !wanted(sources, key)
}

/// The watchers that go on.
pub open spec fn released(
    model: SupervisorModel,
    sources: Seq<RemoteAgentSourceConfig>,
    finished: Seq<u64>,
) -> Map<Seq<char>, u64> {
    Map::new(
        |key: Seq<char>| goes_on(model, sources, finished, key),
        |key: Seq<char>| model.watched[key],
    )
}

/// The watchers that were let go, by their generations.
#[derive(Debug, PartialEq, Eq)]
pub struct Released {
    /// Those that have finished and are to be joined.
    pub joined: Vec<u64>,
    /// Those that are to be cancelled.
    pub cancelled: Vec<u64>,
}

/// What to do about a source.
#[derive(Debug, PartialEq, Eq)]
pub enum RegisterStep {
    /// It is being watched.
    Registered { registration: RemoteHostRegistration },
    /// A watcher is to be started under a new generation.
    Spawn { key: RemoteHostKey, generation: u64 },
    /// There is no generation left.
    Exhausted,
}

/// The registration of a source, as mathematical values.
pub struct RegistrationModel {
    pub key: Seq<char>,
    pub label: Seq<char>,
    pub generation: u64,
    pub order: int,
}

impl View for RemoteHostRegistration {
    type V = RegistrationModel;

    open spec fn view(&self) -> RegistrationModel {
        RegistrationModel {
            key: self.key@,
            label: self.label@,
            generation: self.generation,
            order: self.order as int,
        }
    }
}

pub open spec fn registration_of(
    source: RemoteAgentSourceConfig,
    generation: u64,
    order: int,
) -> RegistrationModel {
    RegistrationModel {
        key: source_key(source),
        label: source_label(source),
        generation,
        order,
    }
}

/// Whether a generation is in a list.
fn among(generations: &Vec<u64>, generation: u64) -> (found: bool)
    ensures
        found == generations@.contains(generation),
{
    let mut i: usize = 0;
    while i < generations.len()
        invariant
            i <= generations.len(),
            forall|k: int| 0 <= k < i ==> #[trigger] generations@[k] != generation,
        decreases generations.len() - i,
    {
        if generations[i] == generation {
            proof {
                assert(generations@[i as int] == generation);
            }
            return true;
        }
        i = i + 1;
    }
    false
}

/// Whether a host is among the sources.
fn is_wanted(sources: &Vec<RemoteAgentSourceConfig>, key: &str) -> (found: bool)
    ensures
        found == wanted(sources@, key@),
{
    let mut i: usize = 0;
    while i < sources.len()
        invariant
            i <= sources.len(),
            forall|k: int| 0 <= k < i ==> source_key(#[trigger] sources@[k]) != key@,
        decreases sources.len() - i,
    {
        let source_key = RemoteHostKey::for_source(&sources[i]);
        if same_text(source_key.0.as_str(), key) {
            proof {
                assert(source_key@ == self::source_key(sources@[i as int]));
            }
            return true;
        }
        i = i + 1;
    }
    false
}

impl Default for RemoteAgentSupervisor {
    fn default() -> (supervisor: Self)
        ensures
            supervisor@.watched == Map::<Seq<char>, u64>::empty(),
            supervisor@.retired == Seq::<u64>::empty(),
            supervisor@.next_generation == 0,
            sound(supervisor@),
    {
        RemoteAgentSupervisor {
            watchers: OrderedMap::new(),
            retired: Vec::new(),
            next_generation: 0,
        }
    }
}

/// The generations in a list are exactly those of the watchers that a test picks.
pub open spec fn picked(
    generations: Seq<u64>,
    watched: Map<Seq<char>, u64>,
    test: spec_fn(Seq<char>) -> bool,
) -> bool {
    &&& forall|key: Seq<char>| #[trigger]
        watched.dom().contains(key) && test(key) ==> generations.contains(watched[key])
    &&& forall|generation: u64| #[trigger]
        generations.contains(generation) ==> exists|key: Seq<char>| #[trigger]
            watched.dom().contains(key) && test(key) && watched[key] == generation
}

/// The generations in a list are exactly those of the first entries that a test picks.
spec fn picked_first(
    generations: Seq<u64>,
    entries: Seq<(Seq<char>, u64)>,
    n: int,
    test: spec_fn(Seq<char>) -> bool,
) -> bool {
    &&& forall|k: int|
        0 <= k < n && test((#[trigger] entries[k]).0) ==> generations.contains(entries[k].1)
    &&& forall|generation: u64| #[trigger]
        generations.contains(generation) ==> exists|k: int|
            0 <= k < n && test((#[trigger] entries[k]).0) && entries[k].1 == generation
}

/// No two entries have the same generation.
spec fn generations_differ(entries: Seq<(Seq<char>, u64)>) -> bool {
    forall|i: int, j: int|
        0 <= i < j < entries.len() ==> (#[trigger] entries[i]).1 != (#[trigger] entries[j]).1
}

proof fn lemma_push_contains(generations: Seq<u64>, generation: u64, x: u64)
    ensures
        generations.push(generation).contains(x) <==> generations.contains(x) || x == generation,
{
    let longer = generations.push(generation);
    assert(longer[generations.len() as int] == generation);
    if generations.contains(x) {
        let i = choose|i: int| 0 <= i < generations.len() && generations[i] == x;
        assert(longer[i] == x);
    }
    if longer.contains(x) {
        let i = choose|i: int| 0 <= i < longer.len() && longer[i] == x;
        if i < generations.len() {
            assert(generations[i] == x);
        }
    }
}

proof fn lemma_pick(
    generations: Seq<u64>,
    entries: Seq<(Seq<char>, u64)>,
    n: int,
    test: spec_fn(Seq<char>) -> bool,
)
    requires
        0 <= n < entries.len(),
        test(entries[n].0),
        picked_first(generations, entries, n, test),
    ensures
        picked_first(generations.push(entries[n].1), entries, n + 1, test),
        generations.no_duplicates() && generations_differ(entries) ==> generations.push(
            entries[n].1,
        ).no_duplicates(),
{
    let longer = generations.push(entries[n].1);
    assert forall|x: u64| #[trigger] longer.contains(x) <==> generations.contains(x) || x
        == entries[n].1 by {
        lemma_push_contains(generations, entries[n].1, x);
    }
    assert forall|x: u64| #[trigger] longer.contains(x) implies exists|k: int|
        0 <= k < n + 1 && test((#[trigger] entries[k]).0) && entries[k].1 == x by {
        if !generations.contains(x) {
            assert(test(entries[n].0) && entries[n].1 == x);
        } else {
            let k = choose|k: int|
                0 <= k < n && test((#[trigger] entries[k]).0) && entries[k].1 == x;
            assert(test(entries[k].0));
        }
    }
    assert forall|k: int|
        0 <= k < n + 1 && test((#[trigger] entries[k]).0) implies longer.contains(entries[k].1) by {
        if k < n {
            assert(generations.contains(entries[k].1));
        }
    }
    if generations.no_duplicates() && generations_differ(entries) {
        assert(!generations.contains(entries[n].1));
        assert forall|i: int, j: int| 0 <= i < longer.len() && 0 <= j < longer.len() && i != j
            implies longer[i] != longer[j] by {
            if i < generations.len() {
                assert(generations.contains(generations[i]));
            }
            if j < generations.len() {
                assert(generations.contains(generations[j]));
            }
        }
    }
}

proof fn lemma_pass_over(
    generations: Seq<u64>,
    entries: Seq<(Seq<char>, u64)>,
    n: int,
    test: spec_fn(Seq<char>) -> bool,
)
    requires
        0 <= n < entries.len(),
        !test(entries[n].0),
        picked_first(generations, entries, n, test),
    ensures
        picked_first(generations, entries, n + 1, test),
{
    assert forall|x: u64| #[trigger] generations.contains(x) implies exists|k: int|
        0 <= k < n + 1 && test((#[trigger] entries[k]).0) && entries[k].1 == x by {
        let k = choose|k: int|
            0 <= k < n && test((#[trigger] entries[k]).0) && entries[k].1 == x;
        assert(test(entries[k].0));
    }
}

proof fn lemma_all_picked(
    generations: Seq<u64>,
    entries: Seq<(Seq<char>, u64)>,
    test: spec_fn(Seq<char>) -> bool,
)
    requires
        keys_ascend(entries),
        picked_first(generations, entries, entries.len() as int, test),
    ensures
        picked(generations, entries_map(entries), test),
{
    let watched = entries_map(entries);
    assert forall|key: Seq<char>| #[trigger]
        watched.dom().contains(key) && test(key) implies generations.contains(watched[key]) by {
        lemma_key_found(entries, key);
    }
    assert forall|x: u64| #[trigger] generations.contains(x) implies exists|key: Seq<char>| #[trigger]
        watched.dom().contains(key) && test(key) && watched[key] == x by {
        let k = choose|k: int|
            0 <= k < entries.len() && test((#[trigger] entries[k]).0) && entries[k].1 == x;
        lemma_entry_found(entries, k);
        assert(watched.dom().contains(entries[k].0));
    }
}

/// The generations of a sound supervisor differ.
proof fn lemma_generations_differ(entries: Seq<(Seq<char>, u64)>, model: SupervisorModel)
    requires
        keys_ascend(entries),
        model.watched == entries_map(entries),
        sound(model),
    ensures
        generations_differ(entries),
{
    assert forall|i: int, j: int| 0 <= i < j < entries.len() implies (#[trigger] entries[i]).1 != (
    #[trigger] entries[j]).1 by {
        lemma_entry_found(entries, i);
        lemma_entry_found(entries, j);
        assert(key_position(entries, entries[i].0) == i);
        assert(entries[i].0 != entries[j].0);
    }
}

/// A sound supervisor stays sound when watchers are let go and the cancelled ones are retired.
proof fn lemma_release_sound(
    model: SupervisorModel,
    sources: Seq<RemoteAgentSourceConfig>,
    finished: Seq<u64>,
    cancelled: Seq<u64>,
)
    requires
        sound(model),
        picked(cancelled, model.watched, |key: Seq<char>| cancels(model, sources, finished, key)),
        cancelled.no_duplicates(),
    ensures
        sound(
            SupervisorModel {
                watched: released(model, sources, finished),
                retired: model.retired + cancelled,
                next_generation: model.next_generation,
            },
        ),
{
    let after = SupervisorModel {
        watched: released(model, sources, finished),
        retired: model.retired + cancelled,
        next_generation: model.next_generation,
    };
    assert forall|i: int| 0 <= i < cancelled.len() implies exists|key: Seq<char>| #[trigger]
        model.watched.dom().contains(key) && cancels(model, sources, finished, key)
            && model.watched[key] == #[trigger] cancelled[i] by {
        assert(cancelled.contains(cancelled[i]));
    }
    assert forall|key: Seq<char>| #[trigger] after.watched.dom().contains(key) implies
        after.watched[key] <= after.next_generation && !after.retired.contains(
        after.watched[key],
    ) by {
        assert(model.watched.dom().contains(key));
        if after.retired.contains(after.watched[key]) {
            let i = choose|i: int|
                0 <= i < after.retired.len() && after.retired[i] == after.watched[key];
            if i < model.retired.len() {
                assert(model.retired.contains(model.retired[i]));
            } else {
                assert(cancelled[i - model.retired.len()] == after.watched[key]);
            }
        }
    }
    assert forall|i: int| 0 <= i < after.retired.len() implies #[trigger] after.retired[i]
        <= after.next_generation by {
        if i >= model.retired.len() {
            assert(after.retired[i] == cancelled[i - model.retired.len()]);
        }
    }
    assert forall|i: int, j: int| 0 <= i < after.retired.len() && 0 <= j < after.retired.len() && i
        != j implies after.retired[i] != after.retired[j] by {
        let n = model.retired.len();
        if i < n && j >= n {
            assert(model.retired.contains(model.retired[i]));
            assert(after.retired[j] == cancelled[j - n]);
        } else if i >= n && j < n {
            assert(model.retired.contains(model.retired[j]));
            assert(after.retired[i] == cancelled[i - n]);
        } else if i >= n && j >= n {
            assert(after.retired[i] == cancelled[i - n]);
            assert(after.retired[j] == cancelled[j - n]);
        }
    }
}

impl RemoteAgentSupervisor {
    /// Lets go of the watchers that have finished and of those whose hosts are gone from the
    /// sources. The latter are retired until they have finished too.
    pub fn release(
        &mut self,
        sources: &Vec<RemoteAgentSourceConfig>,
        finished: &Vec<u64>,
    ) -> (result: Released)
        ensures
            final(self)@.watched == released(old(self)@, sources@, finished@),
            final(self)@.retired == old(self)@.retired + result.cancelled@,
            final(self)@.next_generation == old(self)@.next_generation,
            picked(
                result.joined@,
                old(self)@.watched,
                |key: Seq<char>| joins(old(self)@, finished@, key),
            ),
            picked(
                result.cancelled@,
                old(self)@.watched,
                |key: Seq<char>| cancels(old(self)@, sources@, finished@, key),
            ),
            sound(old(self)@) ==> sound(final(self)@) && result.joined@.no_duplicates()
                && result.cancelled@.no_duplicates(),
    {
        let ghost model = self@;
        let ghost entries = self.watchers.entries();
        let ghost test_joins = |key: Seq<char>| joins(model, finished@, key);
        let ghost test_cancels = |key: Seq<char>| cancels(model, sources@, finished@, key);
        let n = self.watchers.len();
        proof {
            if sound(model) {
                lemma_generations_differ(entries, model);
            }
        }
        let mut kept: OrderedMap<u64> = OrderedMap::new();
        let mut joined: Vec<u64> = Vec::new();
        let mut cancelled: Vec<u64> = Vec::new();
        let mut i: usize = 0;
        while i < n
            invariant
                i <= n,
                n == entries.len(),
                entries == self.watchers.entries(),
                keys_ascend(entries),
                model.watched == entries_map(entries),
                test_joins == (|key: Seq<char>| joins(model, finished@, key)),
                test_cancels == (|key: Seq<char>| cancels(model, sources@, finished@, key)),
                forall|key: Seq<char>| #[trigger]
                    kept@.dom().contains(key) <==> goes_on(model, sources@, finished@, key)
                        && key_position(entries, key) < i,
                forall|key: Seq<char>| #[trigger]
                    kept@.dom().contains(key) ==> kept@[key] == model.watched[key],
                picked_first(joined@, entries, i as int, test_joins),
                picked_first(cancelled@, entries, i as int, test_cancels),
                sound(model) ==> generations_differ(entries) && joined@.no_duplicates()
                    && cancelled@.no_duplicates(),
            decreases n - i,
        {
            let key = self.watchers.key_at(i);
            let generation = *self.watchers.value_at(i);
            let ghost before = kept@;
            proof {
                lemma_entry_found(entries, i as int);
                assert forall|other: Seq<char>| #[trigger]
                    model.watched.dom().contains(other) && other != key@ implies (
                key_position(entries, other) < i <==>
                    key_position(entries, other) < i + 1) by {
                    lemma_key_found(entries, other);
                }
            }
            if among(finished, generation) {
                proof {
                    lemma_pick(joined@, entries, i as int, test_joins);
                    lemma_pass_over(cancelled@, entries, i as int, test_cancels);
                }
                joined.push(generation);
            } else if is_wanted(sources, key.as_str()) {
                proof {
                    lemma_pass_over(joined@, entries, i as int, test_joins);
                    lemma_pass_over(cancelled@, entries, i as int, test_cancels);
                }
                kept.insert(key.clone(), generation);
            } else {
                proof {
                    lemma_pass_over(joined@, entries, i as int, test_joins);
                    lemma_pick(cancelled@, entries, i as int, test_cancels);
                }
                cancelled.push(generation);
            }
            i = i + 1;
        }
        proof {
            lemma_all_picked(joined@, entries, test_joins);
            lemma_all_picked(cancelled@, entries, test_cancels);
            assert forall|key: Seq<char>| goes_on(model, sources@, finished@, key) implies #[trigger]
                kept@.dom().contains(key) by {
                lemma_key_found(entries, key);
            }
            assert(kept@ =~= released(model, sources@, finished@));
            if sound(model) {
                lemma_release_sound(model, sources@, finished@, cancelled@);
            }
        }
        self.watchers = kept;
        let mut j: usize = 0;
        while j < cancelled.len()
            invariant
                j <= cancelled.len(),
                self.watchers == kept,
                self.next_generation == model.next_generation,
                self.retired@ == model.retired + cancelled@.take(j as int),
            decreases cancelled.len() - j,
        {
            self.retired.push(cancelled[j]);
            j = j + 1;
            proof {
                assert(self.retired@ =~= model.retired + cancelled@.take(j as int));
            }
        }
        proof {
            assert(cancelled@.take(cancelled@.len() as int) =~= cancelled@);
        }
        Released { joined, cancelled }
    }

    /// Takes the retired watchers that have finished, to be joined.
    pub fn reap(&mut self, finished: &Vec<u64>) -> (joined: Vec<u64>)
        ensures
            final(self)@.watched == old(self)@.watched,
            final(self)@.next_generation == old(self)@.next_generation,
            final(self)@.retired == old(self)@.retired.filter(|g: u64| !finished@.contains(g)),
            joined@ == old(self)@.retired.filter(|g: u64| finished@.contains(g)),
            sound(old(self)@) ==> sound(final(self)@),
    {
        let ghost model = self@;
        let ghost running = |g: u64| !finished@.contains(g);
        let ghost ended = |g: u64| finished@.contains(g);
        let mut still_running: Vec<u64> = Vec::new();
        let mut joined: Vec<u64> = Vec::new();
        let mut i: usize = 0;
        proof {
            assert(self.retired@.take(0) =~= Seq::<u64>::empty());
            assert(self.retired@.take(0).filter(running) =~= Seq::<u64>::empty()) by {
                reveal(Seq::filter);
            }
            assert(self.retired@.take(0).filter(ended) =~= Seq::<u64>::empty()) by {
                reveal(Seq::filter);
            }
        }
        while i < self.retired.len()
            invariant
                i <= self.retired.len(),
                self@ == model,
                running == (|g: u64| !finished@.contains(g)),
                ended == (|g: u64| finished@.contains(g)),
                still_running@ == self.retired@.take(i as int).filter(running),
                joined@ == self.retired@.take(i as int).filter(ended),
            decreases self.retired.len() - i,
        {
            let generation = self.retired[i];
            proof {
                reveal(Seq::filter);
                assert(self.retired@.take(i + 1).drop_last() =~= self.retired@.take(i as int));
                assert(self.retired@.take(i + 1).last() == generation);
            }
            if among(finished, generation) {
                joined.push(generation);
            } else {
                still_running.push(generation);
            }
            i = i + 1;
        }
        proof {
            assert(self.retired@.take(self.retired@.len() as int) =~= self.retired@);
            if sound(model) {
                lemma_reap_sound(model, running);
            }
        }
        self.retired = still_running;
        joined
    }

    /// Registers a source that is being watched, or else gives a generation for its watcher.
    pub fn register(&mut self, order: usize, source: &RemoteAgentSourceConfig) -> (step:
        RegisterStep)
        ensures
            final(self)@.watched == old(self)@.watched,
            final(self)@.retired == old(self)@.retired,
            match step {
                RegisterStep::Registered { registration } => {
                    &&& old(self)@.watched.dom().contains(source_key(*source))
                    &&& registration@ == registration_of(
                        *source,
                        old(self)@.watched[source_key(*source)],
                        order as int,
                    )
                    &&& final(self)@.next_generation == old(self)@.next_generation
                },
                RegisterStep::Spawn { key, generation } => {
                    &&& !old(self)@.watched.dom().contains(source_key(*source))
                    &&& old(self)@.next_generation < u64::MAX
                    &&& key@ == source_key(*source)
                    &&& generation == old(self)@.next_generation + 1
                    &&& final(self)@.next_generation == generation
                },
                RegisterStep::Exhausted => {
                    &&& !old(self)@.watched.dom().contains(source_key(*source))
                    &&& old(self)@.next_generation == u64::MAX
                    &&& final(self)@.next_generation == old(self)@.next_generation
                },
            },
            step is Spawn <==> supervised(old(self)@, *source, order as int, true).0 != old(self)@,
            step matches RegisterStep::Spawn { key, generation } ==> supervised(
                old(self)@,
                *source,
                order as int,
                true,
            ) == (
                SupervisorModel {
                    watched: final(self)@.watched.insert(key@, generation),
                    ..final(self)@
                },
                Some(registration_of(*source, generation, order as int)),
            ),
            final(self)@ == supervised(old(self)@, *source, order as int, false).0,
            sound(old(self)@) ==> sound(final(self)@) && (
            step matches RegisterStep::Spawn { key, generation } ==> unused(
                final(self)@,
                generation,
            )),
    {
        let key = RemoteHostKey::for_source(source);
        if let Some(generation) = self.watchers.get(key.0.as_str()) {
            return RegisterStep::Registered {
                registration: RemoteHostRegistration {
                    key,
                    label: source.fleet_label(),
                    generation: *generation,
                    order,
                },
            };
        }
        match self.next_generation.checked_add(1) {
            Some(generation) => {
                self.next_generation = generation;
                proof {
                    if sound(old(self)@) && self@.retired.contains(generation) {
                        let i = choose|i: int|
                            0 <= i < self@.retired.len() && self@.retired[i] == generation;
                        assert(old(self)@.retired[i] == generation);
                    }
                }
                RegisterStep::Spawn { key, generation }
            },
            None => RegisterStep::Exhausted,
        }
    }

    /// Takes up a watcher that was started for a source, and registers the source.
    pub fn take_up(
        &mut self,
        order: usize,
        source: &RemoteAgentSourceConfig,
        generation: u64,
    ) -> (registration: RemoteHostRegistration)
        ensures
            final(self)@.watched == old(self)@.watched.insert(source_key(*source), generation),
            final(self)@.retired == old(self)@.retired,
            final(self)@.next_generation == old(self)@.next_generation,
            registration@ == registration_of(*source, generation, order as int),
            sound(old(self)@) && unused(old(self)@, generation) ==> sound(final(self)@),
    {
        let key = RemoteHostKey::for_source(source);
        self.watchers.insert(key.0.clone(), generation);
        RemoteHostRegistration { key, label: source.fleet_label(), generation, order }
    }

    /// Lets go of all watchers, running and retired, to be cancelled and joined.
    pub fn shut_down(&mut self) -> (all: Vec<u64>)
        ensures
            final(self)@.watched == Map::<Seq<char>, u64>::empty(),
            final(self)@.retired == Seq::<u64>::empty(),
            final(self)@.next_generation == old(self)@.next_generation,
            forall|generation: u64| #[trigger]
                all@.contains(generation) <==> old(self)@.retired.contains(generation) || exists|
                    key: Seq<char>,
                | #[trigger]
                    old(self)@.watched.dom().contains(key) && old(self)@.watched[key]
                        == generation,
            sound(final(self)@),
    {
        let ghost model = self@;
        let ghost entries = self.watchers.entries();
        let n = self.watchers.len();
        let mut all: Vec<u64> = Vec::new();
        let mut i: usize = 0;
        let ghost any = |key: Seq<char>| true;
        while i < n
            invariant
                i <= n,
                n == entries.len(),
                entries == self.watchers.entries(),
                self@ == model,
                any == (|key: Seq<char>| true),
                picked_first(all@, entries, i as int, any),
            decreases n - i,
        {
            proof {
                lemma_pick(all@, entries, i as int, any);
            }
            all.push(*self.watchers.value_at(i));
            i = i + 1;
        }
        proof {
            lemma_all_picked(all@, entries, any);
        }
        let ghost watching = all@;
        let mut j: usize = 0;
        while j < self.retired.len()
            invariant
                j <= self.retired.len(),
                self@ == model,
                all@ == watching + self.retired@.take(j as int),
            decreases self.retired.len() - j,
        {
            all.push(self.retired[j]);
            j = j + 1;
            proof {
                assert(all@ =~= watching + self.retired@.take(j as int));
            }
        }
        proof {
            assert(all@ =~= watching + model.retired);
            assert forall|generation: u64| #[trigger]
                all@.contains(generation) <==> model.retired.contains(generation)
                    || watching.contains(generation) by {
                lemma_joined_contains(watching, model.retired, generation);
            }
            assert forall|generation: u64| #[trigger]
                watching.contains(generation) <==> exists|key: Seq<char>| #[trigger]
                    model.watched.dom().contains(key) && model.watched[key] == generation by {
                if watching.contains(generation) {
                    let key = choose|key: Seq<char>| #[trigger]
                        model.watched.dom().contains(key) && any(key) && model.watched[key]
                            == generation;
                    assert(model.watched.dom().contains(key));
                }
                if exists|key: Seq<char>| #[trigger]
                    model.watched.dom().contains(key) && model.watched[key] == generation {
                    let key = choose|key: Seq<char>| #[trigger]
                        model.watched.dom().contains(key) && model.watched[key] == generation;
                    assert(any(key));
                }
            }
        }
        self.watchers = OrderedMap::new();
        self.retired = Vec::new();
        all
    }
}

proof fn lemma_joined_contains(a: Seq<u64>, b: Seq<u64>, x: u64)
    ensures
        (a + b).contains(x) <==> a.contains(x) || b.contains(x),
{
    let both = a + b;
    if a.contains(x) {
        let i = choose|i: int| 0 <= i < a.len() && a[i] == x;
        assert(both[i] == x);
    }
    if b.contains(x) {
        let i = choose|i: int| 0 <= i < b.len() && b[i] == x;
        assert(both[a.len() + i] == x);
    }
    if both.contains(x) {
        let i = choose|i: int| 0 <= i < both.len() && both[i] == x;
        if i < a.len() {
            assert(a[i] == x);
        } else {
            assert(b[i - a.len()] == x);
        }
    }
}

/// What a filter leaves of a list without duplicates has none, and nothing that was not there.
proof fn lemma_filter_differ(generations: Seq<u64>, test: spec_fn(u64) -> bool)
    requires
        generations.no_duplicates(),
    ensures
        generations.filter(test).no_duplicates(),
        forall|x: u64| #[trigger]
            generations.filter(test).contains(x) ==> generations.contains(x),
    decreases generations.len(),
{
    reveal(Seq::filter);
    if generations.len() > 0 {
        let rest = generations.drop_last();
        let last = generations.last();
        lemma_filter_differ(rest, test);
        let kept = rest.filter(test);
        assert forall|x: u64| #[trigger] kept.contains(x) implies generations.contains(x) && x
            != last by {
            let i = choose|i: int| 0 <= i < rest.len() && rest[i] == x;
            assert(generations[i] == x);
        }
        if test(last) {
            let longer = kept.push(last);
            assert forall|i: int, j: int| 0 <= i < longer.len() && 0 <= j < longer.len() && i != j
                implies longer[i] != longer[j] by {
                if i < kept.len() {
                    assert(kept.contains(kept[i]));
                }
                if j < kept.len() {
                    assert(kept.contains(kept[j]));
                }
            }
            assert forall|x: u64| #[trigger] longer.contains(x) implies generations.contains(x) by {
                lemma_push_contains(kept, last, x);
                assert(generations[generations.len() - 1] == last);
            }
        }
    }
}

proof fn lemma_reap_sound(model: SupervisorModel, test: spec_fn(u64) -> bool)
    requires
        sound(model),
    ensures
        sound(SupervisorModel { retired: model.retired.filter(test), ..model }),
{
    lemma_filter_differ(model.retired, test);
    let kept = model.retired.filter(test);
    assert forall|i: int| 0 <= i < kept.len() implies #[trigger] kept[i]
        <= model.next_generation by {
        assert(kept.contains(kept[i]));
        let k = choose|k: int| 0 <= k < model.retired.len() && model.retired[k] == kept[i];
        assert(model.retired[k] <= model.next_generation);
    }
}

/// A source is taken up: the supervisor after it, and its registration if it got one. A new
/// generation is given even where the watcher then could not be started.
pub open spec fn supervised(
    model: SupervisorModel,
    source: RemoteAgentSourceConfig,
    order: int,
    starts: bool,
) -> (SupervisorModel, Option<RegistrationModel>) {
    let key = source_key(source);
    if model.watched.dom().contains(key) {
        (model, Some(registration_of(source, model.watched[key], order)))
    } else if model.next_generation == u64::MAX {
        (model, None)
    } else {
        let generation = (model.next_generation + 1) as u64;
        if starts {
            (
                SupervisorModel {
                    watched: model.watched.insert(key, generation),
                    next_generation: generation,
                    ..model
                },
                Some(registration_of(source, generation, order)),
            )
        } else {
            (SupervisorModel { next_generation: generation, ..model }, None)
        }
    }
}

/// The first sources are taken up one by one, where `starts` says for each of them whether a
/// watcher can be started.
pub open spec fn supervised_first(
    model: SupervisorModel,
    sources: Seq<RemoteAgentSourceConfig>,
    starts: Seq<bool>,
    n: int,
) -> (SupervisorModel, Seq<RegistrationModel>)
    decreases n,
{
    if n <= 0 {
        (model, Seq::empty())
    } else {
        let before = supervised_first(model, sources, starts, n - 1);
        let step = supervised(before.0, sources[n - 1], n - 1, starts[n - 1]);
        match step.1 {
            Some(registration) => (step.0, before.1.push(registration)),
            None => (step.0, before.1),
        }
    }
}

/// A source that is being watched keeps its generation, whatever its label and its place among
/// the sources.
pub proof fn watched_source_keeps_its_generation(
    model: SupervisorModel,
    source: RemoteAgentSourceConfig,
    renamed: RemoteAgentSourceConfig,
    order: int,
    new_order: int,
    starts: bool,
)
    requires
        source_key(renamed) == source_key(source),
        supervised(model, source, order, true).1 is Some,
    ensures
        ({
            let once = supervised(model, source, order, true);
            let again = supervised(once.0, renamed, new_order, starts);
            &&& again.0 == once.0
            &&& again.1 == Some(
                RegistrationModel {
                    label: source_label(renamed),
                    order: new_order,
                    ..once.1->0
                },
            )
        }),
{
}

/// A source that was not being watched gets a generation newer than all that are in use, and than
/// all that were given before, while there are generations left.
pub proof fn new_source_gets_a_new_generation(
    model: SupervisorModel,
    source: RemoteAgentSourceConfig,
    order: int,
)
    requires
        sound(model),
        !model.watched.dom().contains(source_key(source)),
        model.next_generation < u64::MAX,
    ensures
        ({
            let (after, registration) = supervised(model, source, order, true);
            &&& sound(after)
            &&& registration matches Some(r) && r.generation > model.next_generation && (forall|
                key: Seq<char>,
            | #[trigger]
                model.watched.dom().contains(key) ==> r.generation > model.watched[key]) && (
            forall|i: int|
                0 <= i < model.retired.len() ==> r.generation > #[trigger] model.retired[i])
        }),
{
    let after = supervised(model, source, order, true).0;
    let key = source_key(source);
    if after.retired.contains(after.watched[key]) {
        let i = choose|i: int| 0 <= i < after.retired.len() && after.retired[i] == after.watched[key];
        assert(model.retired[i] <= model.next_generation);
    }
}

/// Generations never go back while sources are taken up.
pub proof fn generations_never_go_back(
    model: SupervisorModel,
    sources: Seq<RemoteAgentSourceConfig>,
    starts: Seq<bool>,
    n: int,
)
    requires
        0 <= n <= sources.len(),
    ensures
        model.next_generation <= supervised_first(model, sources, starts, n).0.next_generation,
    decreases n,
{
    if n > 0 {
        generations_never_go_back(model, sources, starts, n - 1);
    }
}

/// No two sources are for the same host.
pub open spec fn sources_differ(sources: Seq<RemoteAgentSourceConfig>) -> bool {
    forall|i: int, j: int|
        0 <= i < j < sources.len() ==> source_key(#[trigger] sources[i]) != source_key(
            #[trigger] sources[j],
        )
}

/// The registrations follow the order of the sources, each is for its source, and sources for
/// different hosts give registrations for different hosts.
pub proof fn registrations_follow_the_sources(
    model: SupervisorModel,
    sources: Seq<RemoteAgentSourceConfig>,
    starts: Seq<bool>,
    n: int,
)
    requires
        0 <= n <= sources.len(),
        n <= starts.len(),
    ensures
        ({
            let registrations = supervised_first(model, sources, starts, n).1;
            &&& forall|i: int|
                0 <= i < registrations.len() ==> 0 <= (#[trigger] registrations[i]).order < n
                    && registrations[i].key == source_key(sources[registrations[i].order])
                    && registrations[i].label == source_label(sources[registrations[i].order])
            &&& forall|i: int, j: int|
                0 <= i < j < registrations.len() ==> (#[trigger] registrations[i]).order < (
                #[trigger] registrations[j]).order
            &&& sources_differ(sources) ==> forall|i: int, j: int|
                0 <= i < j < registrations.len() ==> (#[trigger] registrations[i]).key != (
                #[trigger] registrations[j]).key
        }),
    decreases n,
{
    if n > 0 {
        registrations_follow_the_sources(model, sources, starts, n - 1);
        let before = supervised_first(model, sources, starts, n - 1);
        let step = supervised(before.0, sources[n - 1], n - 1, starts[n - 1]);
        let registrations = supervised_first(model, sources, starts, n).1;
        assert forall|i: int| 0 <= i < registrations.len() implies 0 <= (
        #[trigger] registrations[i]).order < n && registrations[i].key == source_key(
            sources[registrations[i].order],
        ) && registrations[i].label == source_label(sources[registrations[i].order]) by {
            if i < before.1.len() {
                assert(registrations[i] == before.1[i]);
            }
        }
        assert forall|i: int, j: int| 0 <= i < j < registrations.len() implies (
        #[trigger] registrations[i]).order < (#[trigger] registrations[j]).order by {
            assert(registrations[i] == before.1[i]);
            if j < before.1.len() {
                assert(registrations[j] == before.1[j]);
            }
        }
    }
}

/// Where every source is being watched, taking the same hosts up once more, under whatever labels,
/// registers each under the generation that it has and changes nothing else.
pub proof fn settled_sources_stay_settled(
    model: SupervisorModel,
    sources: Seq<RemoteAgentSourceConfig>,
    renamed: Seq<RemoteAgentSourceConfig>,
    starts: Seq<bool>,
    n: int,
)
    requires
        0 <= n <= sources.len(),
        renamed.len() == sources.len(),
        forall|i: int|
            0 <= i < sources.len() ==> source_key(#[trigger] renamed[i]) == source_key(sources[i]),
        forall|i: int|
            0 <= i < sources.len() ==> model.watched.dom().contains(
                source_key(#[trigger] sources[i]),
            ),
    ensures
        supervised_first(model, renamed, starts, n).0 == model,
        supervised_first(model, renamed, starts, n).1 == Seq::new(
            n as nat,
            |i: int| registration_of(renamed[i], model.watched[source_key(sources[i])], i),
        ),
    decreases n,
{
    let all = Seq::new(
        n as nat,
        |i: int| registration_of(renamed[i], model.watched[source_key(sources[i])], i),
    );
    if n > 0 {
        settled_sources_stay_settled(model, sources, renamed, starts, n - 1);
        assert(source_key(renamed[n - 1]) == source_key(sources[n - 1]));
        let fewer = Seq::new(
            (n - 1) as nat,
            |i: int| registration_of(renamed[i], model.watched[source_key(sources[i])], i),
        );
        assert(all =~= fewer.push(all[n - 1]));
    } else {
        assert(all =~= Seq::empty());
    }
}

/// No generation is ever in use twice, however many sources are taken up and whether or not their
/// watchers can be started.
pub proof fn generations_stay_unique(
    model: SupervisorModel,
    sources: Seq<RemoteAgentSourceConfig>,
    starts: Seq<bool>,
    n: int,
)
    requires
        sound(model),
        0 <= n <= sources.len(),
    ensures
        sound(supervised_first(model, sources, starts, n).0),
    decreases n,
{
    if n > 0 {
        generations_stay_unique(model, sources, starts, n - 1);
        let before = supervised_first(model, sources, starts, n - 1).0;
        let source = sources[n - 1];
        if !before.watched.dom().contains(source_key(source)) && before.next_generation
            < u64::MAX {
            new_source_gets_a_new_generation(before, source, n - 1);
        }
    }
}

/// Where all watchers can be started and there are generations left, every source is registered
/// in its place, and exactly the sources are watched besides the hosts that were watched before.
pub proof fn all_sources_are_registered(
    model: SupervisorModel,
    sources: Seq<RemoteAgentSourceConfig>,
    starts: Seq<bool>,
    n: int,
)
    requires
        0 <= n <= sources.len(),
        n <= starts.len(),
        forall|i: int| 0 <= i < n ==> #[trigger] starts[i],
        model.next_generation + n <= u64::MAX,
    ensures
        ({
            let (after, registrations) = supervised_first(model, sources, starts, n);
            &&& after.next_generation <= model.next_generation + n
            &&& registrations.len() == n
            &&& forall|i: int|
                0 <= i < n ==> (#[trigger] registrations[i]).order == i && registrations[i].key
                    == source_key(sources[i])
            &&& forall|key: Seq<char>| #[trigger]
                after.watched.dom().contains(key) <==> model.watched.dom().contains(key) || wanted(
                    sources.take(n),
                    key,
                )
        }),
    decreases n,
{
    if n > 0 {
        all_sources_are_registered(model, sources, starts, n - 1);
        let (before, earlier) = supervised_first(model, sources, starts, n - 1);
        let (after, registrations) = supervised_first(model, sources, starts, n);
        assert(starts[n - 1]);
        assert forall|i: int| 0 <= i < n implies (#[trigger] registrations[i]).order == i
            && registrations[i].key == source_key(sources[i]) by {
            if i < n - 1 {
                assert(registrations[i] == earlier[i]);
            }
        }
        let fewer = sources.take(n - 1);
        let more = sources.take(n);
        assert forall|key: Seq<char>| wanted(more, key) <==> wanted(fewer, key) || key
            == source_key(sources[n - 1]) by {
            if wanted(fewer, key) {
                let i = choose|i: int| 0 <= i < fewer.len() && source_key(#[trigger] fewer[i]) == key;
                assert(source_key(more[i]) == key);
            }
            if key == source_key(sources[n - 1]) {
                assert(source_key(more[n - 1]) == key);
            }
            if wanted(more, key) {
                let i = choose|i: int| 0 <= i < more.len() && source_key(#[trigger] more[i]) == key;
                if i < n - 1 {
                    assert(source_key(fewer[i]) == key);
                }
            }
        }
        assert forall|key: Seq<char>| #[trigger]
            after.watched.dom().contains(key) <==> model.watched.dom().contains(key) || wanted(
                more,
                key,
            ) by {
            assert(before.watched.dom().contains(key) <==> model.watched.dom().contains(key)
                || wanted(fewer, key));
            assert(wanted(more, key) <==> wanted(fewer, key) || key == source_key(
                sources[n - 1],
            ));
        }
    }
}

/// Watchers for hosts that are gone from the sources do not go on: after the release only hosts of
/// the sources are watched.
pub proof fn only_sources_stay_watched(
    model: SupervisorModel,
    sources: Seq<RemoteAgentSourceConfig>,
    finished: Seq<u64>,
    key: Seq<char>,
)
    requires
        released(model, sources, finished).dom().contains(key),
    ensures
        wanted(sources, key),
        model.watched.dom().contains(key),
        released(model, sources, finished)[key] == model.watched[key],
{
}

pub open spec fn registration_models(registrations: Seq<RemoteHostRegistration>) -> Seq<
    RegistrationModel,
> {
    registrations.map_values(|registration: RemoteHostRegistration| registration@)
}

/// Whether a watcher has to be started for the source at a position, where `starts` says for the
/// sources before it whether theirs could be started.
pub open spec fn needs_watcher(
    model: SupervisorModel,
    sources: Seq<RemoteAgentSourceConfig>,
    starts: Seq<bool>,
    i: int,
) -> bool {
    let before = supervised_first(model, sources, starts, i).0;
    !before.watched.dom().contains(source_key(sources[i])) && before.next_generation < u64::MAX
}

/// Which watchers may be started: for a source whose host is not being watched, under the key of
/// that host and a generation that was not given before. No other start is made.
pub open spec fn may_start(
    model: SupervisorModel,
    sources: Seq<RemoteAgentSourceConfig>,
    source: RemoteAgentSourceConfig,
    key: Seq<char>,
    generation: u64,
) -> bool {
    &&& sources.contains(source)
    &&& key == source_key(source)
    &&& !model.watched.dom().contains(key)
    &&& generation > model.next_generation
}

/// What can come back of the start of a watcher for a source under a new generation.
pub open spec fn can_come_back<
    F: Fn(&RemoteAgentSourceConfig, &RemoteHostKey, u64) -> bool,
>(
    model: SupervisorModel,
    source: RemoteAgentSourceConfig,
    spawn_watcher: F,
    started: bool,
) -> bool {
    exists|key: RemoteHostKey, generation: u64| #[trigger]
        spawn_watcher.ensures((&source, &key, generation), started) && key@ == source_key(source)
            && generation == model.next_generation + 1
}

/// What came back of the start of a watcher for the source at a position.
pub open spec fn start_outcome<
    F: Fn(&RemoteAgentSourceConfig, &RemoteHostKey, u64) -> bool,
>(
    model: SupervisorModel,
    sources: Seq<RemoteAgentSourceConfig>,
    starts: Seq<bool>,
    spawn_watcher: F,
    i: int,
) -> bool {
    can_come_back(
        supervised_first(model, sources, starts, i).0,
        sources[i],
        spawn_watcher,
        starts[i],
    )
}

proof fn lemma_starts_agree(
    model: SupervisorModel,
    sources: Seq<RemoteAgentSourceConfig>,
    a: Seq<bool>,
    b: Seq<bool>,
    n: int,
)
    requires
        0 <= n <= a.len(),
        n <= b.len(),
        forall|i: int| 0 <= i < n ==> #[trigger] a[i] == b[i],
    ensures
        supervised_first(model, sources, a, n) == supervised_first(model, sources, b, n),
    decreases n,
{
    if n > 0 {
        lemma_starts_agree(model, sources, a, b, n - 1);
        assert(a[n - 1] == b[n - 1]);
    }
}

impl RemoteAgentSupervisor {
    /// Takes up all sources, starting a watcher with `spawn_watcher` for each that has none. Which
    /// watchers can be started is up to `spawn_watcher`: for whatever came back of its calls, the
    /// sources are taken up accordingly. It is called for no source that has a watcher.
    pub fn register_sources<F: Fn(&RemoteAgentSourceConfig, &RemoteHostKey, u64) -> bool>(
        &mut self,
        sources: &Vec<RemoteAgentSourceConfig>,
        spawn_watcher: F,
    ) -> (registrations: Vec<RemoteHostRegistration>)
        requires
            forall|source: RemoteAgentSourceConfig, key: RemoteHostKey, generation: u64|
                may_start(old(self)@, sources@, source, key@, generation)
                    ==> #[trigger] spawn_watcher.requires((&source, &key, generation)),
        ensures
            exists|starts: Seq<bool>|
                {
                    &&& starts.len() == sources@.len()
                    &&& #[trigger] supervised_first(
                        old(self)@,
                        sources@,
                        starts,
                        sources@.len() as int,
                    ) == (final(self)@, registration_models(registrations@))
                    &&& forall|i: int|
                        0 <= i < starts.len() && needs_watcher(old(self)@, sources@, starts, i)
                            ==> #[trigger] start_outcome(
                            old(self)@,
                            sources@,
                            starts,
                            spawn_watcher,
                            i,
                        )
                },
            sound(old(self)@) ==> sound(final(self)@),
    {
        let ghost model = self@;
        let mut registrations: Vec<RemoteHostRegistration> = Vec::new();
        let ghost mut starts: Seq<bool> = Seq::empty();
        let mut order: usize = 0;
        proof {
            assert(registration_models(registrations@) =~= Seq::<RegistrationModel>::empty());
        }
        while order < sources.len()
            invariant
                order <= sources@.len(),
                starts.len() == order,
                model == old(self)@,
                supervised_first(model, sources@, starts, order as int) == (
                    self@,
                    registration_models(registrations@),
                ),
                forall|i: int|
                    0 <= i < starts.len() && needs_watcher(model, sources@, starts, i)
                        ==> #[trigger] start_outcome(model, sources@, starts, spawn_watcher, i),
                forall|source: RemoteAgentSourceConfig, key: RemoteHostKey, generation: u64|
                    may_start(model, sources@, source, key@, generation)
                        ==> #[trigger] spawn_watcher.requires((&source, &key, generation)),
                model.next_generation <= self@.next_generation,
                forall|key: Seq<char>| #[trigger]
                    model.watched.dom().contains(key) ==> self@.watched.dom().contains(key),
                sound(model) ==> sound(self@),
            decreases sources.len() - order,
        {
            let source = &sources[order];
            let ghost before = self@;
            let ghost earlier = registrations@;
            let ghost mut started = false;
            let registration = match self.register(order, source) {
                RegisterStep::Registered { registration } => Some(registration),
                RegisterStep::Spawn { key, generation } => {
                    proof {
                        assert(sources@.contains(sources@[order as int]));
                        assert(may_start(model, sources@, *source, key@, generation));
                    }
                    let spawned = spawn_watcher(source, &key, generation);
                    proof {
                        started = spawned;
                        assert(spawn_watcher.ensures((source, &key, generation), spawned));
                        assert(can_come_back(before, *source, spawn_watcher, started));
                    }
                    if spawned {
                        Some(self.take_up(order, source, generation))
                    } else {
                        None
                    }
                },
                RegisterStep::Exhausted => None,
            };
            let ghost longer = starts.push(started);
            proof {
                lemma_starts_agree(model, sources@, longer, starts, order as int);
                assert(supervised_first(model, sources@, longer, order as int).0 == before);
                assert(supervised(before, *source, order as int, started).0 == self@);
                assert forall|i: int|
                    0 <= i < longer.len() && needs_watcher(model, sources@, longer, i) implies
                    #[trigger] start_outcome(model, sources@, longer, spawn_watcher, i) by {
                    if i < order {
                        lemma_starts_agree(model, sources@, longer, starts, i);
                        assert(needs_watcher(model, sources@, starts, i));
                        assert(start_outcome(model, sources@, starts, spawn_watcher, i));
                        assert(longer[i] == starts[i]);
                    } else {
                        assert(longer[i] == started);
                        assert(can_come_back(before, *source, spawn_watcher, started));
                    }
                }
            }
            if let Some(registration) = registration {
                registrations.push(registration);
                proof {
                    assert(registration_models(registrations@) =~= registration_models(
                        earlier,
                    ).push(registration@));
                }
            }
            proof {
                starts = longer;
            }
            order = order + 1;
        }
        registrations
    }
}

/// The generation under which a watcher is started for the source at a position.
pub open spec fn generation_given(
    model: SupervisorModel,
    sources: Seq<RemoteAgentSourceConfig>,
    starts: Seq<bool>,
    i: int,
) -> int {
    supervised_first(model, sources, starts, i).0.next_generation + 1
}

proof fn lemma_next_generation_grows(
    model: SupervisorModel,
    sources: Seq<RemoteAgentSourceConfig>,
    starts: Seq<bool>,
    m: int,
    n: int,
)
    requires
        0 <= m <= n <= sources.len(),
    ensures
        supervised_first(model, sources, starts, m).0.next_generation <= supervised_first(
            model,
            sources,
            starts,
            n,
        ).0.next_generation,
    decreases n,
{
    if m < n {
        lemma_next_generation_grows(model, sources, starts, m, n - 1);
    }
}

/// The generations under which watchers are started are newer than all that were given before, and
/// go up from source to source, whether or not the watchers could be started.
pub proof fn given_generations_go_up(
    model: SupervisorModel,
    sources: Seq<RemoteAgentSourceConfig>,
    starts: Seq<bool>,
    i: int,
    j: int,
)
    requires
        0 <= i <= j < sources.len(),
        needs_watcher(model, sources, starts, i),
        needs_watcher(model, sources, starts, j),
    ensures
        model.next_generation < generation_given(model, sources, starts, i),
        i < j ==> generation_given(model, sources, starts, i) < generation_given(
            model,
            sources,
            starts,
            j,
        ),
        generation_given(model, sources, starts, j) <= u64::MAX,
{
    generations_never_go_back(model, sources, starts, i);
    if i < j {
        lemma_next_generation_grows(model, sources, starts, i + 1, j);
    }
}

proof fn lemma_others_stay(
    model: SupervisorModel,
    sources: Seq<RemoteAgentSourceConfig>,
    starts: Seq<bool>,
    n: int,
    key: Seq<char>,
)
    requires
        0 <= n <= sources.len(),
        forall|i: int| 0 <= i < n ==> source_key(#[trigger] sources[i]) != key,
    ensures
        supervised_first(model, sources, starts, n).0.watched.dom().contains(key)
            == model.watched.dom().contains(key),
    decreases n,
{
    if n > 0 {
        lemma_others_stay(model, sources, starts, n - 1, key);
        assert(source_key(sources[n - 1]) != key);
    }
}

/// Where the sources are for different hosts, a watcher is started for exactly those sources whose
/// host had none, as long as there are generations left. A source for which there is no generation
/// left is skipped, and nothing changes for it.
pub proof fn unwatched_sources_get_a_watcher(
    model: SupervisorModel,
    sources: Seq<RemoteAgentSourceConfig>,
    starts: Seq<bool>,
    i: int,
)
    requires
        sources_differ(sources),
        0 <= i < sources.len(),
    ensures
        ({
            let before = supervised_first(model, sources, starts, i);
            let after = supervised_first(model, sources, starts, i + 1);
            let watched = model.watched.dom().contains(source_key(sources[i]));
            &&& needs_watcher(model, sources, starts, i) <==> !watched
                && before.0.next_generation < u64::MAX
            &&& !watched && before.0.next_generation == u64::MAX ==> after == before
        }),
{
    assert forall|k: int| 0 <= k < i implies source_key(#[trigger] sources[k]) != source_key(
        sources[i],
    ) by {
        assert(source_key(sources[k]) != source_key(sources[i]));
    }
    lemma_others_stay(model, sources, starts, i, source_key(sources[i]));
}

} // verus!
