use std::collections::HashMap;
use std::sync::atomic::{AtomicBool, Ordering};
use std::sync::Arc;

use herdr::config::RemoteAgentSourceConfig;
use herdr::detect::{Agent, AgentLabel, AgentState};
use herdr::ordered_map::{MetadataMap, OrderedMap};
use herdr::protocol::PROTOCOL_VERSION;
use herdr::remote_agents::command::{remote_snapshot_script, snapshot_stream_command};
use herdr::remote_agents::fleet::{
    parse_snapshot_line, snapshot_for_fleet, FleetAgentInfo, FleetPaneInfo, FleetResponseResult,
    FleetSessionSnapshot, FleetSuccessResponse, FleetTabInfo, FleetWorkspaceInfo,
};
use herdr::remote_agents::host::{
    RemoteAgentUpdate, RemoteAgentUpdateKind, RemoteHostKey, RemoteHostRegistration,
};
use herdr::remote_agents::input::read_bounded_line;
use herdr::remote_agents::presentation::{RemoteAgentPresentation, RemoteAgentSnapshot};
use herdr::remote_agents::registry::RemoteAgentRegistry;
use herdr::remote_agents::supervisor::RemoteAgentSupervisor;
use herdr::schema::{agent_status_or_unknown, presentation_state, AgentStatus};
use serde_json::Value;

fn agent_name() -> String {
    format!("{:?}", Agent::Claude).to_lowercase()
}

fn known_labels() -> Vec<AgentLabel> {
    vec![AgentLabel {
        label: agent_name(),
        agent: Agent::Claude,
    }]
}

fn source(target: &str) -> RemoteAgentSourceConfig {
    RemoteAgentSourceConfig {
        target: target.to_string(),
        label: None,
        session: "default".to_string(),
    }
}

fn no_metadata() -> MetadataMap {
    OrderedMap::new()
}

fn snapshot(status: AgentStatus) -> RemoteAgentSnapshot {
    RemoteAgentSnapshot {
        version: "0.8.0".into(),
        protocol: PROTOCOL_VERSION,
        agents: vec![RemoteAgentPresentation {
            workspace_id: "workspace:1".into(),
            tab_id: "tab:1".into(),
            pane_id: "pane:1".into(),
            workspace_label: "repo".into(),
            tab_label: None,
            pane_label: None,
            terminal_title: None,
            terminal_title_stripped: None,
            agent_label: agent_name(),
            agent_kind_label: Some(agent_name()),
            agent: Some(Agent::Claude),
            state: presentation_state(status).0,
            seen: presentation_state(status).1,
            state_labels: no_metadata(),
            tokens: no_metadata(),
            display_order: (1, 1, 1),
            order: (1, 1, 1),
        }],
    }
}

fn fleet_agent(tab_id: &str, pane_id: &str, terminal_id: &str) -> FleetAgentInfo {
    FleetAgentInfo {
        terminal_id: terminal_id.into(),
        name: None,
        agent: Some(agent_name()),
        title: None,
        terminal_title: None,
        terminal_title_stripped: None,
        display_agent: None,
        agent_status: AgentStatus::Working,
        state_labels: no_metadata(),
        tokens: no_metadata(),
        workspace_id: "w1".into(),
        tab_id: tab_id.into(),
        pane_id: pane_id.into(),
    }
}

fn text(value: &Value, key: &str) -> String {
    value[key].as_str().unwrap().to_string()
}

fn optional_text(value: &Value, key: &str) -> Option<String> {
    value.get(key).and_then(Value::as_str).map(str::to_string)
}

fn metadata(value: &Value, key: &str) -> MetadataMap {
    let mut map = no_metadata();
    if let Some(entries) = value.get(key).and_then(Value::as_object) {
        for (name, entry) in entries {
            map.insert(name.clone(), entry.as_str().unwrap().to_string());
        }
    }
    map
}

fn items<'a>(value: &'a Value, key: &str) -> &'a Vec<Value> {
    value[key].as_array().unwrap()
}

fn decode(line: &[u8]) -> Result<FleetSuccessResponse, String> {
    let value: Value = serde_json::from_slice(line).map_err(|err| err.to_string())?;
    let result = &value["result"];
    if result["type"] != "session_snapshot" {
        return Ok(FleetSuccessResponse {
            result: FleetResponseResult::Other,
        });
    }
    let snapshot = &result["snapshot"];
    Ok(FleetSuccessResponse {
        result: FleetResponseResult::SessionSnapshot {
            snapshot: FleetSessionSnapshot {
                version: text(snapshot, "version"),
                protocol: snapshot["protocol"].as_u64().unwrap() as u32,
                workspaces: items(snapshot, "workspaces")
                    .iter()
                    .map(|workspace| FleetWorkspaceInfo {
                        workspace_id: text(workspace, "workspace_id"),
                        label: text(workspace, "label"),
                    })
                    .collect(),
                tabs: items(snapshot, "tabs")
                    .iter()
                    .map(|tab| FleetTabInfo {
                        tab_id: text(tab, "tab_id"),
                        workspace_id: text(tab, "workspace_id"),
                        number: tab["number"].as_u64().unwrap() as usize,
                        label: text(tab, "label"),
                        custom_label: tab.get("custom_label").and_then(Value::as_bool),
                    })
                    .collect(),
                panes: items(snapshot, "panes")
                    .iter()
                    .map(|pane| FleetPaneInfo {
                        pane_id: text(pane, "pane_id"),
                        number: pane
                            .get("number")
                            .and_then(Value::as_u64)
                            .map(|number| number as usize),
                        terminal_id: text(pane, "terminal_id"),
                        workspace_id: text(pane, "workspace_id"),
                        tab_id: text(pane, "tab_id"),
                    })
                    .collect(),
                agents: items(snapshot, "agents")
                    .iter()
                    .map(|agent| FleetAgentInfo {
                        terminal_id: text(agent, "terminal_id"),
                        name: optional_text(agent, "name"),
                        agent: optional_text(agent, "agent"),
                        title: optional_text(agent, "title"),
                        terminal_title: optional_text(agent, "terminal_title"),
                        terminal_title_stripped: optional_text(agent, "terminal_title_stripped"),
                        display_agent: optional_text(agent, "display_agent"),
                        agent_status: agent_status_or_unknown(&text(agent, "agent_status")),
                        state_labels: metadata(agent, "state_labels"),
                        tokens: metadata(agent, "tokens"),
                        workspace_id: text(agent, "workspace_id"),
                        tab_id: text(agent, "tab_id"),
                        pane_id: text(agent, "pane_id"),
                    })
                    .collect(),
            },
        },
    })
}

fn reconcile_with(
    supervisor: &mut RemoteAgentSupervisor,
    sources: Vec<RemoteAgentSourceConfig>,
) -> Vec<RemoteHostRegistration> {
    let running = Vec::new();
    supervisor.release(&sources, &running);
    supervisor.reap(&running);
    supervisor.register_sources(&sources, |_, _, _| true)
}

#[test]
fn supervisor_preserves_generation_for_labels_and_renews_identity() {
    let mut supervisor = RemoteAgentSupervisor::default();
    let mut original = source("box");
    original.label = Some("first".into());

    let first = reconcile_with(&mut supervisor, vec![original.clone()]);
    assert_eq!(first.len(), 1);
    let first_generation = first[0].generation;

    original.label = Some("renamed".into());
    let renamed = reconcile_with(&mut supervisor, vec![original.clone()]);
    assert_eq!(renamed[0].generation, first_generation);
    assert_eq!(renamed[0].label, "renamed");

    original.session = "work".into();
    let changed_identity = reconcile_with(&mut supervisor, vec![original]);
    assert!(changed_identity[0].generation > first_generation);

    assert!(reconcile_with(&mut supervisor, Vec::new()).is_empty());
    let readded = reconcile_with(&mut supervisor, vec![source("box")]);
    assert!(readded[0].generation > changed_identity[0].generation);
}

#[test]
fn registry_rejects_stale_generation_after_reconfigure() {
    let key = RemoteHostKey::for_source(&source("box"));
    let mut registry = RemoteAgentRegistry::default();
    registry.reconcile(&[RemoteHostRegistration {
        key: key.clone(),
        label: "box".into(),
        generation: 2,
        order: 0,
    }]);
    let mut seq = 0;

    assert!(!registry.apply_update(
        RemoteAgentUpdate::immediate(
            key,
            1,
            RemoteAgentUpdateKind::Snapshot(snapshot(AgentStatus::Working)),
        ),
        &mut seq,
    ));
    assert!(registry.panel_agents().is_empty());
}

#[test]
fn offline_keeps_last_snapshot_and_relabels_its_state_in_ui_layer() {
    let key = RemoteHostKey::for_source(&source("box"));
    let mut registry = RemoteAgentRegistry::default();
    registry.reconcile(&[RemoteHostRegistration {
        key: key.clone(),
        label: "box".into(),
        generation: 1,
        order: 0,
    }]);
    let mut seq = 0;
    assert!(registry.apply_update(
        RemoteAgentUpdate::immediate(
            key.clone(),
            1,
            RemoteAgentUpdateKind::Snapshot(snapshot(AgentStatus::Working)),
        ),
        &mut seq,
    ));
    assert!(registry.apply_update(
        RemoteAgentUpdate::immediate(
            key,
            1,
            RemoteAgentUpdateKind::Offline {
                error: "network down".into(),
            },
        ),
        &mut seq,
    ));

    let agents = registry.panel_agents();
    assert_eq!(agents.len(), 1);
    assert!(!agents[0].online);
    assert_eq!(agents[0].presentation.state, AgentState::Working);
}

#[test]
fn identical_snapshot_does_not_request_another_render() {
    let key = RemoteHostKey::for_source(&source("box"));
    let mut registry = RemoteAgentRegistry::default();
    registry.reconcile(&[RemoteHostRegistration {
        key: key.clone(),
        label: "box".into(),
        generation: 1,
        order: 0,
    }]);
    let mut seq = 0;
    let update = || {
        RemoteAgentUpdate::immediate(
            key.clone(),
            1,
            RemoteAgentUpdateKind::Snapshot(snapshot(AgentStatus::Working)),
        )
    };

    assert!(registry.apply_update(update(), &mut seq));
    assert!(!registry.apply_update(update(), &mut seq));
    assert_eq!(seq, 0);
}

#[test]
fn identical_remote_pane_ids_remain_distinct_across_hosts() {
    let first = RemoteHostKey::for_source(&source("first"));
    let second = RemoteHostKey::for_source(&source("second"));
    let mut registry = RemoteAgentRegistry::default();
    registry.reconcile(&[
        RemoteHostRegistration {
            key: first.clone(),
            label: "first".into(),
            generation: 1,
            order: 0,
        },
        RemoteHostRegistration {
            key: second.clone(),
            label: "second".into(),
            generation: 2,
            order: 1,
        },
    ]);
    let mut seq = 0;
    for (host, generation) in [(first, 1), (second, 2)] {
        assert!(registry.apply_update(
            RemoteAgentUpdate::immediate(
                host,
                generation,
                RemoteAgentUpdateKind::Snapshot(snapshot(AgentStatus::Working)),
            ),
            &mut seq,
        ));
    }

    let agents = registry.panel_agents();
    assert_eq!(agents.len(), 2);
    assert_eq!(agents[0].presentation.pane_id, "pane:1");
    assert_eq!(agents[1].presentation.pane_id, "pane:1");
    assert_ne!(agents[0].host_key, agents[1].host_key);
}

#[test]
fn status_changes_receive_local_observation_sequence() {
    let key = RemoteHostKey::for_source(&source("box"));
    let mut registry = RemoteAgentRegistry::default();
    registry.reconcile(&[RemoteHostRegistration {
        key: key.clone(),
        label: "box".into(),
        generation: 1,
        order: 0,
    }]);
    let mut seq = 41;
    assert!(registry.apply_update(
        RemoteAgentUpdate::immediate(
            key.clone(),
            1,
            RemoteAgentUpdateKind::Snapshot(snapshot(AgentStatus::Working)),
        ),
        &mut seq,
    ));
    assert_eq!(registry.panel_agents()[0].state_change_seq, None);

    assert!(registry.apply_update(
        RemoteAgentUpdate::immediate(
            key,
            1,
            RemoteAgentUpdateKind::Snapshot(snapshot(AgentStatus::Blocked)),
        ),
        &mut seq,
    ));
    assert_eq!(registry.panel_agents()[0].state_change_seq, Some(42));
}

#[test]
fn tracked_update_allows_only_one_pending_event_per_host() {
    let pending = Arc::new(AtomicBool::new(false));
    let key = RemoteHostKey::for_source(&source("box"));
    let first = RemoteAgentUpdate::claim(
        key.clone(),
        1,
        RemoteAgentUpdateKind::Snapshot(snapshot(AgentStatus::Working)),
        &pending,
    )
    .unwrap();
    assert!(RemoteAgentUpdate::claim(
        key.clone(),
        1,
        RemoteAgentUpdateKind::Snapshot(snapshot(AgentStatus::Blocked)),
        &pending,
    )
    .is_none());
    assert!(pending.load(Ordering::Acquire));

    drop(first);
    assert!(!pending.load(Ordering::Acquire));

    assert!(RemoteAgentUpdate::claim(
        key,
        1,
        RemoteAgentUpdateKind::Snapshot(snapshot(AgentStatus::Blocked)),
        &pending,
    )
    .is_some());
}

#[test]
fn bounded_reader_rejects_oversized_line_without_allocating_it() {
    let input = b"123456\n";
    let mut line = Vec::new();
    let err = read_bounded_line(&mut line, &input[..], 4).unwrap_err();
    assert_eq!(err, "remote snapshot exceeds 4 bytes");
    assert!(line.is_empty());
    assert_eq!(line.capacity(), 0);
}

#[test]
fn parser_sanitizes_remote_control_characters() {
    let line = format!(
        r#"{{"id":"snapshot","result":{{"type":"session_snapshot","snapshot":{{"version":"0.8.0","protocol":{},"workspaces":[{{"workspace_id":"workspace:1","number":1,"label":"repo\u202e\u001b[31m","focused":false,"pane_count":1,"tab_count":1,"active_tab_id":"tab:1","agent_status":"working"}}],"tabs":[{{"tab_id":"tab:1","workspace_id":"workspace:1","number":1,"label":"review","custom_label":true,"focused":false,"pane_count":1,"agent_status":"working"}}],"panes":[{{"pane_id":"pane:1","number":1,"terminal_id":"terminal:1","workspace_id":"workspace:1","tab_id":"tab:1","focused":false,"agent":"{}","title":"unsafe\nname","agent_status":"working","revision":1}}],"layouts":[],"agents":[{{"terminal_id":"terminal:1","agent":"{}","title":"unsafe\nname","agent_status":"working","screen_detection_skipped":false,"workspace_id":"workspace:1","tab_id":"tab:1","pane_id":"pane:1","focused":false,"launch_pending":false,"interactive_ready":true,"state_change_seq":1,"revision":1}}]}}}}}}"#,
        PROTOCOL_VERSION,
        agent_name(),
        agent_name()
    );

    let parsed = parse_snapshot_line(decode(line.as_bytes()), &known_labels()).unwrap();

    assert_eq!(parsed.agents[0].workspace_label, "repo[31m");
    assert_eq!(parsed.agents[0].tab_label.as_deref(), Some("review"));
    assert_eq!(parsed.agents[0].pane_label.as_deref(), Some("unsafename"));
}

#[test]
fn parser_rejects_tabs_from_unknown_workspaces() {
    let err = snapshot_for_fleet(FleetSessionSnapshot {
        version: "0.8.0".into(),
        protocol: PROTOCOL_VERSION,
        workspaces: Vec::new(),
        tabs: vec![FleetTabInfo {
            tab_id: "tab:1".into(),
            workspace_id: "workspace:missing".into(),
            number: 1,
            label: "1".into(),
            custom_label: Some(false),
        }],
        panes: Vec::new(),
        agents: Vec::new(),
    }, &known_labels())
    .unwrap_err();

    assert!(err.contains("unknown workspace"));
}

#[test]
fn parser_degrades_unrecognized_agent_status_to_unknown() {
    let line = format!(
        r#"{{"result":{{"type":"session_snapshot","snapshot":{{"version":"0.8.0","protocol":{},"workspaces":[{{"workspace_id":"w1","label":"repo"}}],"tabs":[{{"tab_id":"t1","workspace_id":"w1","number":1,"label":"1"}}],"panes":[{{"pane_id":"p1","number":1,"terminal_id":"term1","workspace_id":"w1","tab_id":"t1"}}],"agents":[{{"terminal_id":"term1","agent":"{}","agent_status":"hibernating","workspace_id":"w1","tab_id":"t1","pane_id":"p1"}}]}}}}}}"#,
        PROTOCOL_VERSION,
        agent_name()
    );

    let parsed = parse_snapshot_line(decode(line.as_bytes()), &known_labels()).unwrap();

    assert_eq!(parsed.agents[0].state, AgentState::Unknown);
    assert!(parsed.agents[0].seen);
}

#[test]
fn parser_rejects_incompatible_remote_protocol() {
    let err = snapshot_for_fleet(FleetSessionSnapshot {
        version: "future".into(),
        protocol: PROTOCOL_VERSION.saturating_add(1),
        workspaces: Vec::new(),
        tabs: Vec::new(),
        panes: Vec::new(),
        agents: Vec::new(),
    }, &known_labels())
    .unwrap_err();

    assert!(err.contains("incompatible"));
}

#[test]
fn moved_remote_tabs_keep_display_order_and_public_sort_numbers() {
    let parsed = snapshot_for_fleet(FleetSessionSnapshot {
        version: "0.8.0".into(),
        protocol: PROTOCOL_VERSION,
        workspaces: vec![FleetWorkspaceInfo {
            workspace_id: "w1".into(),
            label: "repo".into(),
        }],
        tabs: vec![
            FleetTabInfo {
                tab_id: "w1:t2".into(),
                workspace_id: "w1".into(),
                number: 2,
                label: "1".into(),
                custom_label: Some(false),
            },
            FleetTabInfo {
                tab_id: "w1:t1".into(),
                workspace_id: "w1".into(),
                number: 1,
                label: "2".into(),
                custom_label: Some(false),
            },
        ],
        panes: vec![
            FleetPaneInfo {
                pane_id: "w1:p2".into(),
                number: Some(2),
                terminal_id: "terminal:2".into(),
                workspace_id: "w1".into(),
                tab_id: "w1:t2".into(),
            },
            FleetPaneInfo {
                pane_id: "w1:p1".into(),
                number: Some(1),
                terminal_id: "terminal:1".into(),
                workspace_id: "w1".into(),
                tab_id: "w1:t1".into(),
            },
        ],
        agents: vec![
            fleet_agent("w1:t1", "w1:p1", "terminal:1"),
            fleet_agent("w1:t2", "w1:p2", "terminal:2"),
        ],
    }, &known_labels())
    .unwrap();

    let by_pane = parsed
        .agents
        .iter()
        .map(|agent| (agent.pane_id.as_str(), (agent.display_order, agent.order)))
        .collect::<HashMap<_, _>>();
    assert_eq!(by_pane["w1:p2"], ((0, 0, 0), (0, 2, 2)));
    assert_eq!(by_pane["w1:p1"], ((0, 1, 0), (0, 1, 1)));

    let key = RemoteHostKey::for_source(&source("box"));
    let mut registry = RemoteAgentRegistry::default();
    registry.reconcile(&[RemoteHostRegistration {
        key: key.clone(),
        label: "box".into(),
        generation: 1,
        order: 0,
    }]);
    let mut seq = 0;
    registry.apply_update(
        RemoteAgentUpdate::immediate(key, 1, RemoteAgentUpdateKind::Snapshot(parsed)),
        &mut seq,
    );
    let displayed = registry.panel_agents();
    assert_eq!(displayed[0].presentation.pane_id, "w1:p2");
    assert_eq!(displayed[1].presentation.pane_id, "w1:p1");
}

#[test]
fn legacy_single_tab_without_custom_marker_keeps_its_label_visible() {
    let parsed = snapshot_for_fleet(FleetSessionSnapshot {
        version: "0.8.0".into(),
        protocol: PROTOCOL_VERSION,
        workspaces: vec![FleetWorkspaceInfo {
            workspace_id: "w1".into(),
            label: "repo".into(),
        }],
        tabs: vec![FleetTabInfo {
            tab_id: "w1:t1".into(),
            workspace_id: "w1".into(),
            number: 1,
            label: "review".into(),
            custom_label: None,
        }],
        panes: vec![FleetPaneInfo {
            pane_id: "w1:p1".into(),
            number: None,
            terminal_id: "terminal:1".into(),
            workspace_id: "w1".into(),
            tab_id: "w1:t1".into(),
        }],
        agents: vec![fleet_agent("w1:t1", "w1:p1", "terminal:1")],
    }, &known_labels())
    .unwrap();

    assert_eq!(parsed.agents[0].tab_label.as_deref(), Some("review"));
    assert_eq!(parsed.agents[0].order.2, 1);
}

#[test]
fn remote_command_is_non_interactive_and_quotes_session() {
    let mut configured = source("user@box");
    configured.session = "work".into();
    let ssh = snapshot_stream_command(&configured);
    assert_eq!(ssh.program, "ssh");
    let args = ssh.args;
    assert!(args.windows(2).any(|pair| pair == ["-o", "BatchMode=yes"]));
    assert!(args
        .windows(2)
        .any(|pair| pair == ["-o", "StrictHostKeyChecking=yes"]));
    for option in [
        "ForwardAgent=no",
        "ForwardX11=no",
        "GSSAPIDelegateCredentials=no",
        "PermitLocalCommand=no",
        "ControlMaster=no",
        "ControlPath=none",
        "ControlPersist=no",
    ] {
        assert!(args.windows(2).any(|pair| pair == ["-o", option]));
    }
    assert!(args.contains(&"user@box".to_string()));
    let command = args.last().unwrap();
    assert_eq!(command, "/bin/sh -s");
    let script = remote_snapshot_script(&configured.session);
    assert!(script.contains("fleet_session='work'"));
    assert!(script.contains("command -v herdr"));
    assert!(script.contains("api help"));
    assert!(script.contains(&format!("\"protocol\": {},", PROTOCOL_VERSION)));
}
