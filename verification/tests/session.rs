use herdr::config::RemoteAgentSourceConfig;
use herdr::detect::{Agent, AgentState};
use herdr::ordered_map::{MetadataMap, OrderedMap};
use herdr::protocol::{BUILD_VERSION, PROTOCOL_VERSION};
use herdr::remote_agents::host::{
    RemoteAgentUpdate, RemoteAgentUpdateKind, RemoteHostKey, RemoteHostRegistration,
};
use herdr::remote_agents::presentation::{RemoteAgentPresentation, RemoteAgentSnapshot};
use herdr::remote_agents::registry::RemoteAgentRegistry;
use herdr::schema::session::{ResponseResult, SessionSnapshot};
use herdr::schema::AgentStatus;
use herdr::session::App;
use herdr::state::{AgentPanelSort, AppState, Mode, Pane, PaneAgent, Tab, Workspace};

fn agent_name() -> String {
    format!("{:?}", Agent::Claude).to_lowercase()
}

fn no_metadata() -> MetadataMap {
    OrderedMap::new()
}

fn test_tab(number: usize) -> Tab {
    Tab {
        number,
        custom_name: None,
        panes: vec![Pane {
            number,
            terminal_id: format!("terminal:{number}"),
            label: None,
            title: None,
            terminal_title: None,
            terminal_title_stripped: None,
            cwd: None,
            foreground_cwd: None,
            scroll: None,
            revision: 0,
            agent: None,
        }],
        focused_pane: 0,
        agent_status: AgentStatus::Unknown,
    }
}

fn app_with_two_tabs() -> App {
    App {
        state: AppState {
            workspaces: vec![Workspace {
                id: "w1".into(),
                label: "snapshot".into(),
                tabs: vec![test_tab(1), test_tab(2)],
                active_tab: 0,
                agent_status: AgentStatus::Unknown,
                tokens: no_metadata(),
                worktree: None,
            }],
            active: Some(0),
            selected: 0,
            mode: Mode::Terminal,
            agent_panel_sort: AgentPanelSort::Spaces,
            agent_view_override: None,
            remote_agents: RemoteAgentRegistry::default(),
            next_agent_state_change_seq: 0,
        },
    }
}

fn requested_snapshot(app: &mut App) -> SessionSnapshot {
    let response = app.handle_session_snapshot("req_snapshot".into());
    assert_eq!(response.id, "req_snapshot");
    let ResponseResult::SessionSnapshot { snapshot } = response.result;
    *snapshot
}

#[test]
fn session_snapshot_reports_remote_agents() {
    let mut app = app_with_two_tabs();
    let source = RemoteAgentSourceConfig {
        target: "user@box".into(),
        label: Some("box".into()),
        session: "work".into(),
    };
    let key = RemoteHostKey::for_source(&source);
    app.state.remote_agents.reconcile(&[RemoteHostRegistration {
        key: key.clone(),
        label: source.fleet_label(),
        generation: 1,
        order: 0,
    }]);
    assert!(app.state.remote_agents.apply_update(
        RemoteAgentUpdate::immediate(
            key,
            1,
            RemoteAgentUpdateKind::Snapshot(RemoteAgentSnapshot {
                version: "0.8.0".into(),
                protocol: PROTOCOL_VERSION,
                agents: vec![RemoteAgentPresentation {
                    workspace_id: "workspace:1".into(),
                    tab_id: "tab:1".into(),
                    pane_id: "pane:1".into(),
                    workspace_label: "repo".into(),
                    tab_label: None,
                    pane_label: None,
                    terminal_title: None,
                    terminal_title_stripped: None,
                    agent_label: agent_name(),
                    agent_kind_label: Some(agent_name()),
                    agent: Some(Agent::Claude),
                    state: AgentState::Idle,
                    seen: false,
                    state_labels: no_metadata(),
                    tokens: no_metadata(),
                    display_order: (0, 0, 0),
                    order: (0, 0, 0),
                }],
            }),
        ),
        &mut app.state.next_agent_state_change_seq,
    ));

    let snapshot = requested_snapshot(&mut app);
    assert_eq!(snapshot.remote_agents.len(), 1);
    let remote = &snapshot.remote_agents[0];
    assert_eq!(remote.source_target, "user@box");
    assert_eq!(remote.source_session, "work");
    assert_eq!(remote.source_label, "box/work");
    assert!(remote.source_online);
    assert_eq!(remote.pane_id, "pane:1");
    assert_eq!(remote.display_agent, agent_name());
    assert_eq!(remote.agent_status, AgentStatus::Done);
}

#[test]
fn session_snapshot_bootstraps_runtime_resources() {
    let mut app = app_with_two_tabs();
    let snapshot = requested_snapshot(&mut app);
    assert_eq!(snapshot.workspaces.len(), 1);
    assert_eq!(snapshot.tabs.len(), 2);
    assert_eq!(snapshot.panes.len(), 2);
    assert_eq!(snapshot.layouts.len(), 2);
    assert_eq!(
        snapshot.focused_workspace_id.as_deref(),
        Some(snapshot.workspaces[0].workspace_id.as_str())
    );
    assert_eq!(
        snapshot.focused_tab_id.as_deref(),
        Some(snapshot.tabs[0].tab_id.as_str())
    );
    assert_eq!(
        snapshot.focused_pane_id.as_deref(),
        Some(snapshot.panes[0].pane_id.as_str())
    );
}

#[test]
fn session_snapshot_reports_exact_values() {
    let mut app = app_with_two_tabs();
    app.state.workspaces[0].tabs[1].custom_name = Some("review".into());
    app.state.workspaces[0].tabs[1].panes[0].agent = Some(PaneAgent {
        agent: Some(Agent::Claude),
        kind_label: Some("kind".into()),
        label: Some("shown".into()),
        state: AgentState::Idle,
        seen: false,
        state_change_seq: Some(3),
        state_labels: no_metadata(),
        tokens: no_metadata(),
        name: Some("helper".into()),
        session: Some("session:1".into()),
        screen_detection_skipped: true,
        launch_pending: false,
        interactive_ready: true,
    });
    let pane = &mut app.state.workspaces[0].tabs[1].panes[0];
    pane.label = Some("editor".into());
    pane.title = Some("reviewing".into());
    pane.cwd = Some("/repo".into());
    pane.foreground_cwd = Some("/repo/src".into());
    pane.scroll = Some("12/40".into());
    pane.revision = 9;
    app.state.workspaces[0].tabs[1].agent_status = AgentStatus::Done;
    app.state.workspaces[0].agent_status = AgentStatus::Done;
    app.state.workspaces[0].worktree = Some("/trees/one".into());
    app.state.workspaces[0].active_tab = 1;

    let snapshot = app.session_snapshot();
    assert_eq!(snapshot.version, BUILD_VERSION);
    assert_eq!(snapshot.protocol, PROTOCOL_VERSION);
    assert_eq!(snapshot.focused_workspace_id.as_deref(), Some("w1"));
    assert_eq!(snapshot.focused_tab_id.as_deref(), Some("w1:t2"));
    assert_eq!(snapshot.focused_pane_id.as_deref(), Some("w1:p2"));
    assert_eq!(snapshot.workspaces[0].label, "snapshot");
    assert_eq!(snapshot.tabs[0].label, "1");
    assert!(!snapshot.tabs[0].custom_label);
    assert_eq!(snapshot.tabs[1].label, "review");
    assert!(snapshot.tabs[1].custom_label);
    assert_eq!(snapshot.layouts[1].pane_ids, vec!["w1:p2".to_string()]);
    assert_eq!(snapshot.panes[1].terminal_id, "terminal:2");
    assert_eq!(snapshot.panes[1].tab_id, "w1:t2");
    assert_eq!(snapshot.agents.len(), 1);
    assert_eq!(snapshot.agents[0].agent.as_deref(), Some("kind"));
    assert_eq!(snapshot.agents[0].display_agent.as_deref(), Some("shown"));
    assert_eq!(snapshot.agents[0].agent_status, AgentStatus::Done);
    assert_eq!(snapshot.agents[0].pane_id, "w1:p2");
    assert!(snapshot.remote_agents.is_empty());

    let workspace = &snapshot.workspaces[0];
    assert_eq!(workspace.number, 1);
    assert!(workspace.focused);
    assert_eq!(workspace.pane_count, 2);
    assert_eq!(workspace.tab_count, 2);
    assert_eq!(workspace.active_tab_id, "w1:t2");
    assert_eq!(workspace.agent_status, AgentStatus::Done);
    assert_eq!(workspace.tokens.len(), 0);
    assert_eq!(workspace.worktree.as_deref(), Some("/trees/one"));

    assert!(!snapshot.tabs[0].focused);
    assert!(snapshot.tabs[1].focused);
    assert_eq!(snapshot.tabs[1].pane_count, 1);
    assert_eq!(snapshot.tabs[0].agent_status, AgentStatus::Unknown);
    assert_eq!(snapshot.tabs[1].agent_status, AgentStatus::Done);

    let quiet = &snapshot.panes[0];
    assert!(!quiet.focused);
    assert_eq!(quiet.agent, None);
    assert_eq!(quiet.agent_status, AgentStatus::Unknown);
    let pane = &snapshot.panes[1];
    assert!(pane.focused);
    assert_eq!(pane.cwd.as_deref(), Some("/repo"));
    assert_eq!(pane.foreground_cwd.as_deref(), Some("/repo/src"));
    assert_eq!(pane.label.as_deref(), Some("editor"));
    assert_eq!(pane.agent.as_deref(), Some("kind"));
    assert_eq!(pane.title.as_deref(), Some("reviewing"));
    assert_eq!(pane.display_agent.as_deref(), Some("shown"));
    assert_eq!(pane.agent_status, AgentStatus::Done);
    assert_eq!(pane.agent_session.as_deref(), Some("session:1"));
    assert_eq!(pane.scroll.as_deref(), Some("12/40"));
    assert_eq!(pane.revision, 9);

    let agent = &snapshot.agents[0];
    assert_eq!(agent.name.as_deref(), Some("helper"));
    assert_eq!(agent.title.as_deref(), Some("reviewing"));
    assert!(agent.screen_detection_skipped);
    assert_eq!(agent.agent_session.as_deref(), Some("session:1"));
    assert!(agent.focused);
    assert!(!agent.launch_pending);
    assert!(agent.interactive_ready);
    assert_eq!(agent.state_change_seq, 3);
    assert_eq!(agent.cwd.as_deref(), Some("/repo"));
    assert_eq!(agent.foreground_cwd.as_deref(), Some("/repo/src"));
    assert_eq!(agent.revision, 9);
}

#[test]
fn only_the_shown_workspace_reports_a_focus() {
    let mut app = app_with_two_tabs();
    let mut other = app_with_two_tabs();
    let mut second = other.state.workspaces.remove(0);
    second.id = "w2".into();
    second.active_tab = 5;
    app.state.workspaces.push(second);

    let snapshot = app.session_snapshot();
    let focused = |flags: Vec<bool>| flags.iter().filter(|flag| **flag).count();
    assert_eq!(focused(snapshot.workspaces.iter().map(|w| w.focused).collect()), 1);
    assert_eq!(focused(snapshot.tabs.iter().map(|t| t.focused).collect()), 1);
    assert_eq!(focused(snapshot.panes.iter().map(|p| p.focused).collect()), 1);
    assert!(snapshot.panes[0].focused);
    assert_eq!(snapshot.workspaces[1].number, 2);
    assert_eq!(snapshot.workspaces[1].active_tab_id, "");
}

#[test]
fn session_without_shown_workspace_has_no_focused_tab_or_pane() {
    let mut app = app_with_two_tabs();
    for (active, workspace) in [(None, None), (Some(7), Some("7"))] {
        app.state.active = active;
        let snapshot = app.session_snapshot();
        assert_eq!(snapshot.focused_workspace_id.as_deref(), workspace);
        assert!(!snapshot.workspaces[0].focused);
        assert_eq!(snapshot.focused_tab_id, None);
        assert_eq!(snapshot.focused_pane_id, None);
        assert_eq!(snapshot.tabs.len(), 2);
    }
    app.state.active = Some(0);
    app.state.workspaces[0].active_tab = 5;
    let snapshot = app.session_snapshot();
    assert_eq!(snapshot.focused_workspace_id.as_deref(), Some("w1"));
    assert_eq!(snapshot.focused_tab_id, None);
    assert_eq!(snapshot.focused_pane_id, None);
}
