use herdr::config::RemoteAgentSourceConfig;
use herdr::detect::AgentState;
use herdr::ordered_map::{MetadataMap, OrderedMap};
use herdr::remote_agents::host::{
    RemoteAgentUpdate, RemoteAgentUpdateKind, RemoteHostKey, RemoteHostRegistration,
};
use herdr::remote_agents::presentation::{RemoteAgentPresentation, RemoteAgentSnapshot};
use herdr::remote_agents::registry::RemoteAgentRegistry;
use herdr::remote_agents::supervisor::{RegisterStep, RemoteAgentSupervisor};

fn no_metadata() -> MetadataMap {
    OrderedMap::new()
}

fn source(target: &str, session: &str) -> RemoteAgentSourceConfig {
    RemoteAgentSourceConfig {
        target: target.into(),
        label: None,
        session: session.into(),
    }
}

fn key(target: &str) -> RemoteHostKey {
    RemoteHostKey::for_source(&source(target, "default"))
}

fn registration(target: &str, label: &str, generation: u64, order: usize) -> RemoteHostRegistration {
    RemoteHostRegistration {
        key: key(target),
        label: label.into(),
        generation,
        order,
    }
}

fn presented(pane: &str, state: AgentState, seen: bool, place: usize) -> RemoteAgentPresentation {
    RemoteAgentPresentation {
        workspace_id: "w1".into(),
        tab_id: "t1".into(),
        pane_id: pane.into(),
        workspace_label: "repo".into(),
        tab_label: None,
        pane_label: None,
        terminal_title: None,
        terminal_title_stripped: None,
        agent_label: "agent".into(),
        agent_kind_label: None,
        agent: None,
        state,
        seen,
        state_labels: no_metadata(),
        tokens: no_metadata(),
        display_order: (0, 0, place),
        order: (0, 1, place),
    }
}

fn report(agents: Vec<RemoteAgentPresentation>) -> RemoteAgentUpdateKind {
    RemoteAgentUpdateKind::Snapshot(RemoteAgentSnapshot {
        version: "0.8.0".into(),
        protocol: 20,
        agents,
    })
}

fn offline() -> RemoteAgentUpdateKind {
    RemoteAgentUpdateKind::Offline {
        error: "network down".into(),
    }
}

fn panes(registry: &RemoteAgentRegistry) -> Vec<(String, String, bool, Option<u64>)> {
    registry
        .panel_agents()
        .into_iter()
        .map(|row| {
            (
                row.host_label,
                row.presentation.pane_id,
                row.online,
                row.state_change_seq,
            )
        })
        .collect()
}

#[test]
fn reconciliation_says_whether_anything_changed() {
    let mut registry = RemoteAgentRegistry::default();
    assert!(!registry.reconcile(&[]));
    assert!(registry.reconcile(&[registration("a", "a", 1, 0)]));
    assert!(!registry.reconcile(&[registration("a", "a", 1, 0)]));
    assert!(registry.reconcile(&[registration("a", "renamed", 1, 0)]));
    assert!(registry.reconcile(&[registration("a", "renamed", 1, 3)]));
    assert!(registry.reconcile(&[registration("a", "renamed", 2, 3)]));
    assert!(registry.reconcile(&[]));
    assert!(!registry.reconcile(&[]));
}

#[test]
fn renamed_host_keeps_its_agents_and_renewed_host_forgets_them() {
    let mut registry = RemoteAgentRegistry::default();
    let mut seq = 0;
    registry.reconcile(&[registration("a", "a", 1, 0)]);
    registry.apply_update(
        RemoteAgentUpdate::immediate(
            key("a"),
            1,
            report(vec![presented("p1", AgentState::Working, true, 0)]),
        ),
        &mut seq,
    );
    registry.reconcile(&[registration("a", "b", 1, 0)]);
    assert_eq!(panes(&registry), vec![("b".into(), "p1".into(), true, None)]);
    registry.reconcile(&[registration("a", "b", 2, 0)]);
    assert!(panes(&registry).is_empty());
    assert!(!registry.apply_update(RemoteAgentUpdate::immediate(key("a"), 1, offline()), &mut seq));
}

#[test]
fn updates_for_unknown_hosts_change_nothing() {
    let mut registry = RemoteAgentRegistry::default();
    let mut seq = 5;
    assert!(!registry.apply_update(
        RemoteAgentUpdate::immediate(
            key("a"),
            1,
            report(vec![presented("p1", AgentState::Idle, true, 0)]),
        ),
        &mut seq,
    ));
    assert_eq!(seq, 5);
    assert!(panes(&registry).is_empty());
}

#[test]
fn panel_shows_the_last_report_of_each_host_in_order() {
    let mut registry = RemoteAgentRegistry::default();
    let mut seq = 0;
    registry.reconcile(&[registration("b", "b", 1, 1), registration("a", "a", 2, 0)]);
    registry.apply_update(
        RemoteAgentUpdate::immediate(
            key("b"),
            1,
            report(vec![presented("p1", AgentState::Idle, true, 0)]),
        ),
        &mut seq,
    );
    registry.apply_update(
        RemoteAgentUpdate::immediate(
            key("a"),
            2,
            report(vec![
                presented("p1", AgentState::Idle, true, 2),
                presented("p2", AgentState::Idle, true, 1),
                presented("p0", AgentState::Idle, true, 2),
            ]),
        ),
        &mut seq,
    );
    assert_eq!(
        panes(&registry),
        vec![
            ("a".into(), "p2".into(), true, None),
            ("a".into(), "p0".into(), true, None),
            ("a".into(), "p1".into(), true, None),
            ("b".into(), "p1".into(), true, None),
        ]
    );
    registry.apply_update(
        RemoteAgentUpdate::immediate(
            key("a"),
            2,
            report(vec![presented("p2", AgentState::Idle, true, 1)]),
        ),
        &mut seq,
    );
    assert_eq!(
        panes(&registry),
        vec![
            ("a".into(), "p2".into(), true, None),
            ("b".into(), "p1".into(), true, None),
        ]
    );
}

#[test]
fn only_status_changes_take_numbers() {
    let mut registry = RemoteAgentRegistry::default();
    let mut seq = 0;
    registry.reconcile(&[registration("a", "a", 1, 0)]);
    let mut send = |first: (AgentState, bool), second: (AgentState, bool), seq: &mut u64| {
        let changed = registry.apply_update(
            RemoteAgentUpdate::immediate(
                key("a"),
                1,
                report(vec![
                    presented("p1", first.0, first.1, 0),
                    presented("p2", second.0, second.1, 1),
                ]),
            ),
            seq,
        );
        let numbers: Vec<_> = panes(&registry).into_iter().map(|row| row.3).collect();
        (changed, numbers)
    };
    let idle = (AgentState::Idle, true);
    let done = (AgentState::Idle, false);
    let working = (AgentState::Working, true);
    assert_eq!(send(idle, working, &mut seq), (true, vec![None, None]));
    assert_eq!(send(done, working, &mut seq), (true, vec![Some(1), None]));
    assert_eq!(send(done, working, &mut seq), (false, vec![Some(1), None]));
    assert_eq!(send(idle, idle, &mut seq), (true, vec![Some(2), Some(3)]));
    assert_eq!(seq, 3);
    let mut full = u64::MAX;
    assert_eq!(
        send(done, idle, &mut full),
        (true, vec![Some(u64::MAX), Some(3)])
    );
    assert_eq!(full, u64::MAX);
}

#[test]
fn unavailable_sources_are_counted() {
    let mut registry = RemoteAgentRegistry::default();
    let mut seq = 0;
    registry.reconcile(&[registration("a", "a", 1, 0), registration("b", "b", 2, 1)]);
    assert_eq!(registry.unavailable_source_count(), 2);
    registry.apply_update(
        RemoteAgentUpdate::immediate(key("a"), 1, report(Vec::new())),
        &mut seq,
    );
    assert_eq!(registry.unavailable_source_count(), 1);
    registry.apply_update(RemoteAgentUpdate::immediate(key("a"), 1, offline()), &mut seq);
    assert_eq!(registry.unavailable_source_count(), 2);
}

#[test]
fn host_keys_read_back() {
    let key = RemoteHostKey::for_source(&source("user@box", "work"));
    assert_eq!(key.0, "user@box\u{1f}work");
    assert_eq!(RemoteHostKey::split_key(&key.0), ("user@box", "work"));
    assert_eq!(RemoteHostKey::split_key("plain"), ("plain", ""));
    assert_ne!(
        RemoteHostKey::for_source(&source("a", "b")),
        RemoteHostKey::for_source(&source("ab", ""))
    );
}

#[test]
fn labels_name_the_session_unless_it_is_the_default() {
    let mut configured = source("box", "default");
    assert_eq!(configured.fleet_label(), "box");
    configured.label = Some("name".into());
    assert_eq!(configured.fleet_label(), "name");
    configured.session = "work".into();
    assert_eq!(configured.fleet_label(), "name/work");
}

fn spawned(supervisor: &mut RemoteAgentSupervisor, order: usize, target: &str) -> u64 {
    let configured = source(target, "default");
    match supervisor.register(order, &configured) {
        RegisterStep::Spawn { key, generation } => {
            assert_eq!(key, RemoteHostKey::for_source(&configured));
            let registration = supervisor.take_up(order, &configured, generation);
            assert_eq!(registration.generation, generation);
            assert_eq!(registration.order, order);
            assert_eq!(registration.label, target);
            generation
        }
        other => panic!("expected a new watcher, got {other:?}"),
    }
}

#[test]
fn supervisor_retires_watchers_until_they_have_finished() {
    let mut supervisor = RemoteAgentSupervisor::default();
    let a = spawned(&mut supervisor, 0, "a");
    let b = spawned(&mut supervisor, 1, "b");
    let c = spawned(&mut supervisor, 2, "c");
    assert_eq!((a, b, c), (1, 2, 3));

    let released = supervisor.release(&vec![source("a", "default")], &vec![c]);
    assert_eq!(released.joined, vec![c]);
    assert_eq!(released.cancelled, vec![b]);
    assert!(supervisor.reap(&Vec::new()).is_empty());
    assert_eq!(supervisor.reap(&vec![b]), vec![b]);
    assert!(supervisor.reap(&vec![b]).is_empty());

    assert!(matches!(
        supervisor.register(0, &source("a", "default")),
        RegisterStep::Registered { .. }
    ));
    assert_eq!(spawned(&mut supervisor, 1, "b"), 4);
}

#[test]
fn supervisor_replaces_watchers_that_have_finished() {
    let mut supervisor = RemoteAgentSupervisor::default();
    let first = spawned(&mut supervisor, 0, "a");
    let released = supervisor.release(&vec![source("a", "default")], &vec![first]);
    assert_eq!(released.joined, vec![first]);
    assert!(released.cancelled.is_empty());
    assert_eq!(spawned(&mut supervisor, 0, "a"), 2);
}

#[test]
fn failed_starts_use_up_their_generation() {
    let mut supervisor = RemoteAgentSupervisor::default();
    assert!(matches!(
        supervisor.register(0, &source("a", "default")),
        RegisterStep::Spawn { generation: 1, .. }
    ));
    assert!(matches!(
        supervisor.register(0, &source("a", "default")),
        RegisterStep::Spawn { generation: 2, .. }
    ));
}

#[test]
fn shut_down_lets_go_of_all_watchers() {
    let mut supervisor = RemoteAgentSupervisor::default();
    spawned(&mut supervisor, 0, "a");
    spawned(&mut supervisor, 1, "b");
    supervisor.release(&vec![source("b", "default")], &Vec::new());
    let mut all = supervisor.shut_down();
    all.sort_unstable();
    assert_eq!(all, vec![1, 2]);
    assert!(supervisor.shut_down().is_empty());
    assert_eq!(spawned(&mut supervisor, 0, "a"), 3);
}

#[test]
fn sources_whose_watcher_does_not_start_are_left_out() {
    let mut supervisor = RemoteAgentSupervisor::default();
    let sources = vec![
        source("a", "default"),
        source("b", "default"),
        source("c", "work"),
        source("a", "default"),
    ];
    let starts = |configured: &RemoteAgentSourceConfig, _: &RemoteHostKey, _: u64| {
        configured.target != "b"
    };
    let registrations = supervisor.register_sources(&sources, starts);
    let listed: Vec<_> = registrations
        .iter()
        .map(|entry| (entry.label.as_str(), entry.generation, entry.order))
        .collect();
    assert_eq!(listed, vec![("a", 1, 0), ("c/work", 3, 2), ("a", 1, 3)]);

    let again = supervisor.register_sources(&sources, |_, _, generation| generation == 4);
    let generations: Vec<_> = again.iter().map(|entry| entry.generation).collect();
    assert_eq!(generations, vec![1, 4, 3, 1]);
}

#[test]
fn updates_say_whether_anything_changed() {
    let mut registry = RemoteAgentRegistry::default();
    let mut seq = 0;
    registry.reconcile(&[registration("a", "a", 1, 0)]);
    let mut send = |kind: RemoteAgentUpdateKind| {
        registry.apply_update(RemoteAgentUpdate::immediate(key("a"), 1, kind), &mut seq)
    };
    let failed = |error: &str| RemoteAgentUpdateKind::Offline { error: error.into() };
    assert!(send(failed("x")));
    assert!(!send(failed("x")));
    assert!(!send(failed("x\u{1b}")));
    assert!(send(failed("y")));
    assert!(send(report(Vec::new())));
    assert!(!send(report(Vec::new())));
    assert!(send(failed("y")));
}

#[test]
fn generations_go_up_from_source_to_source() {
    let mut supervisor = RemoteAgentSupervisor::default();
    let given = std::cell::RefCell::new(Vec::new());
    let sources = vec![
        source("a", "default"),
        source("b", "default"),
        source("c", "default"),
    ];
    supervisor.register_sources(&sources, |configured, key, generation| {
        given
            .borrow_mut()
            .push((configured.target.clone(), key.0.clone(), generation));
        configured.target == "b"
    });
    supervisor.register_sources(&sources, |configured, key, generation| {
        given
            .borrow_mut()
            .push((configured.target.clone(), key.0.clone(), generation));
        true
    });
    let expected: Vec<_> = [("a", 1), ("b", 2), ("c", 3), ("a", 4), ("c", 5)]
        .into_iter()
        .map(|(target, generation)| {
            (target.to_string(), format!("{target}\u{1f}default"), generation)
        })
        .collect();
    assert_eq!(given.into_inner(), expected);
}
