use std::cmp::Ordering;

use herdr::agent_view::entry::{AgentPanelEntry, AgentPanelTarget};
use herdr::agent_view::order::compare_entries;
use herdr::agent_view::validation::validate_agent_view;
use herdr::config::RemoteAgentSourceConfig;
use herdr::detect::{Agent, AgentState};
use herdr::ordered_map::{MetadataMap, OrderedMap};
use herdr::remote_agents::host::{
    RemoteAgentUpdate, RemoteAgentUpdateKind, RemoteHostKey, RemoteHostRegistration,
};
use herdr::remote_agents::presentation::{RemoteAgentPresentation, RemoteAgentSnapshot};
use herdr::remote_agents::registry::RemoteAgentRegistry;
use herdr::schema::view::{
    AgentViewBuiltinField, AgentViewBuiltinSortField, AgentViewContext, AgentViewField,
    AgentViewFilter, AgentViewSetParams, AgentViewSort, AgentViewSortField, AgentViewSortOrder,
    AgentViewValue,
};
use herdr::schema::AgentStatus;
use herdr::state::{AgentPanelSort, AppState, Mode, Pane, PaneAgent, Tab, Workspace};
use herdr::ui::agent_panel_entries;

fn agent_name() -> String {
    format!("{:?}", Agent::Claude).to_lowercase()
}

fn no_metadata() -> MetadataMap {
    OrderedMap::new()
}

fn test_state() -> AppState {
    AppState {
        workspaces: Vec::new(),
        active: None,
        selected: 0,
        mode: Mode::Terminal,
        agent_panel_sort: AgentPanelSort::Spaces,
        agent_view_override: None,
        remote_agents: RemoteAgentRegistry::default(),
        next_agent_state_change_seq: 0,
    }
}

fn test_workspace(id: &str, state: AgentState) -> Workspace {
    Workspace {
        id: id.to_string(),
        label: id.to_string(),
        tabs: vec![Tab {
            number: 1,
            custom_name: None,
            panes: vec![Pane {
                number: 1,
                terminal_id: format!("terminal:{id}"),
                label: None,
                title: None,
                terminal_title: None,
                terminal_title_stripped: None,
                cwd: None,
                foreground_cwd: None,
                scroll: None,
                revision: 0,
                agent: Some(PaneAgent {
                    agent: Some(Agent::Claude),
                    kind_label: Some(agent_name()),
                    label: None,
                    state,
                    seen: true,
                    state_change_seq: None,
                    state_labels: no_metadata(),
                    tokens: no_metadata(),
                    name: None,
                    session: None,
                    screen_detection_skipped: false,
                    launch_pending: false,
                    interactive_ready: true,
                }),
            }],
            focused_pane: 0,
            agent_status: AgentStatus::Unknown,
        }],
        active_tab: 0,
        agent_status: AgentStatus::Unknown,
        tokens: no_metadata(),
        worktree: None,
    }
}

fn state_with_agents() -> AppState {
    let mut state = test_state();
    state.workspaces = vec![
        test_workspace("one", AgentState::Idle),
        test_workspace("two", AgentState::Working),
    ];
    state.active = Some(0);
    state.selected = 0;
    state
}

fn current_workspace_view() -> AgentViewSetParams {
    AgentViewSetParams {
        source: "example.views".to_string(),
        label: Some("current".to_string()),
        filter: Some(AgentViewFilter::Eq {
            field: AgentViewField::Builtin(AgentViewBuiltinField::WorkspaceId),
            value: AgentViewValue::Context {
                context: AgentViewContext::CurrentWorkspaceId,
            },
        }),
        sort: Vec::new(),
    }
}

fn panel_entry(order: (usize, usize, usize, usize)) -> AgentPanelEntry {
    AgentPanelEntry {
        target: AgentPanelTarget::Remote {
            source: format!("source:{}", order.0),
            pane_id: format!("pane:{}", order.3),
        },
        view_workspace_id: String::new(),
        view_tab_id: String::new(),
        view_pane_id: String::new(),
        order,
        primary_label: String::new(),
        primary_tab_label: None,
        pane_label: None,
        terminal_title: None,
        terminal_title_stripped: None,
        agent_label: None,
        agent_kind_label: None,
        agent: None,
        state: AgentState::Unknown,
        seen: true,
        last_agent_state_change_seq: None,
        state_labels: no_metadata(),
        tokens: no_metadata(),
    }
}

#[test]
fn current_workspace_filter_tracks_presented_workspace() {
    let mut state = state_with_agents();
    state.agent_view_override = Some(current_workspace_view());

    assert_eq!(
        agent_panel_entries(&state)[0].local_target().unwrap().0,
        0
    );

    state.mode = Mode::Navigate;
    state.selected = 1;
    let entries = agent_panel_entries(&state);
    assert_eq!(entries.len(), 1);
    assert_eq!(entries[0].local_target().unwrap().0, 1);

    state.mode = Mode::Settings;
    let entries = agent_panel_entries(&state);
    assert_eq!(entries.len(), 1);
    assert_eq!(entries[0].local_target().unwrap().0, 0);
}

#[test]
fn current_workspace_filter_does_not_match_same_raw_id_on_remote_host() {
    let mut state = state_with_agents();
    let local_workspace_id = state.workspaces[0].id.clone();
    let source = RemoteAgentSourceConfig {
        target: "box".into(),
        label: None,
        session: "default".into(),
    };
    let host = RemoteHostKey::for_source(&source);
    state.remote_agents.reconcile(&[RemoteHostRegistration {
        key: host.clone(),
        label: "box".into(),
        generation: 1,
        order: 0,
    }]);
    let mut tokens = no_metadata();
    tokens.insert("machine".into(), "user-machine".into());
    tokens.insert("connection".into(), "user-connection".into());
    state.remote_agents.apply_update(
        RemoteAgentUpdate::immediate(
            host.clone(),
            1,
            RemoteAgentUpdateKind::Snapshot(RemoteAgentSnapshot {
                version: "0.8.0".into(),
                protocol: 20,
                agents: vec![RemoteAgentPresentation {
                    workspace_id: local_workspace_id.clone(),
                    tab_id: "t1".into(),
                    pane_id: "p1".into(),
                    workspace_label: "remote repo".into(),
                    tab_label: None,
                    pane_label: None,
                    terminal_title: None,
                    terminal_title_stripped: None,
                    agent_label: agent_name(),
                    agent_kind_label: Some(agent_name()),
                    agent: Some(Agent::Claude),
                    state: AgentState::Working,
                    seen: true,
                    state_labels: no_metadata(),
                    tokens,
                    display_order: (0, 0, 0),
                    order: (0, 0, 0),
                }],
            }),
        ),
        &mut state.next_agent_state_change_seq,
    );

    let unfiltered = agent_panel_entries(&state);
    let remote = unfiltered
        .iter()
        .find(|entry| matches!(entry.target, AgentPanelTarget::Remote { .. }))
        .unwrap();
    assert_ne!(remote.view_workspace_id, local_workspace_id);
    assert_eq!(
        remote.tokens.get("machine").map(String::as_str),
        Some("user-machine")
    );
    assert_eq!(
        remote.tokens.get("connection").map(String::as_str),
        Some("user-connection")
    );

    assert!(state.remote_agents.apply_update(
        RemoteAgentUpdate::immediate(
            host,
            1,
            RemoteAgentUpdateKind::Offline {
                error: "network down".into(),
            },
        ),
        &mut state.next_agent_state_change_seq,
    ));
    let offline = agent_panel_entries(&state)
        .into_iter()
        .find(|entry| matches!(entry.target, AgentPanelTarget::Remote { .. }))
        .unwrap();
    assert_eq!(offline.state, AgentState::Unknown);
    assert!(offline.seen);
    assert!(offline.primary_label.contains("(offline)"));
    assert_eq!(
        offline.state_labels.get("unknown").map(String::as_str),
        Some("offline")
    );

    state.agent_view_override = Some(current_workspace_view());
    let filtered = agent_panel_entries(&state);
    assert_eq!(filtered.len(), 1);
    assert!(filtered[0].local_target().is_some());
}

#[test]
fn boolean_filter_and_custom_sort_define_canonical_entries() {
    let mut state = state_with_agents();
    state.workspaces[0].tabs[0].panes[0]
        .agent
        .as_mut()
        .unwrap()
        .state = AgentState::Working;
    state.agent_view_override = Some(AgentViewSetParams {
        source: "example.views".to_string(),
        label: None,
        filter: Some(AgentViewFilter::All {
            filters: vec![
                AgentViewFilter::Eq {
                    field: AgentViewField::Builtin(AgentViewBuiltinField::Status),
                    value: AgentViewValue::String("working".to_string()),
                },
                AgentViewFilter::Not {
                    filter: Box::new(AgentViewFilter::Eq {
                        field: AgentViewField::Builtin(AgentViewBuiltinField::WorkspaceId),
                        value: AgentViewValue::String("missing".to_string()),
                    }),
                },
            ],
        }),
        sort: vec![AgentViewSort {
            field: AgentViewSortField::Builtin(AgentViewBuiltinSortField::WorkspaceOrder),
            order: AgentViewSortOrder::Desc,
        }],
    });

    let entries = agent_panel_entries(&state);
    assert_eq!(entries.len(), 2);
    assert_eq!(entries[0].local_target().unwrap().0, 1);
    assert_eq!(entries[1].local_target().unwrap().0, 0);
}

#[test]
fn workspace_order_keeps_source_order_before_remote_workspace_number() {
    let first_source = panel_entry((1, 99, 0, 0));
    let second_source = panel_entry((2, 0, 0, 0));
    let sort = AgentViewSort {
        field: AgentViewSortField::Builtin(AgentViewBuiltinSortField::WorkspaceOrder),
        order: AgentViewSortOrder::Asc,
    };

    assert_eq!(
        compare_entries(&test_state(), &first_source, &second_source, &[sort]),
        Ordering::Less
    );
}

#[test]
fn tab_and_pane_order_remain_scalar_custom_sort_fields() {
    let tab_two_in_first_workspace = panel_entry((0, 0, 2, 9));
    let tab_one_in_second_workspace = panel_entry((0, 1, 1, 8));
    let tab_sort = AgentViewSort {
        field: AgentViewSortField::Builtin(AgentViewBuiltinSortField::TabOrder),
        order: AgentViewSortOrder::Asc,
    };
    assert_eq!(
        compare_entries(
            &test_state(),
            &tab_two_in_first_workspace,
            &tab_one_in_second_workspace,
            std::slice::from_ref(&tab_sort),
        ),
        Ordering::Greater
    );

    let workspace_sort = AgentViewSort {
        field: AgentViewSortField::Builtin(AgentViewBuiltinSortField::WorkspaceOrder),
        order: AgentViewSortOrder::Desc,
    };
    assert_eq!(
        compare_entries(
            &test_state(),
            &panel_entry((0, 0, 1, 2)),
            &panel_entry((0, 1, 1, 1)),
            &[tab_sort, workspace_sort],
        ),
        Ordering::Greater
    );

    let pane_sort = AgentViewSort {
        field: AgentViewSortField::Builtin(AgentViewBuiltinSortField::PaneOrder),
        order: AgentViewSortOrder::Asc,
    };
    assert_eq!(
        compare_entries(
            &test_state(),
            &panel_entry((0, 0, 1, 2)),
            &panel_entry((0, 9, 9, 1)),
            &[pane_sort],
        ),
        Ordering::Greater
    );
}

#[test]
fn agent_filter_matches_custom_lifecycle_agent_label() {
    let mut state = state_with_agents();
    let agent = state.workspaces[0].tabs[0].panes[0].agent.as_mut().unwrap();
    agent.kind_label = Some("custom-agent".to_string());
    agent.state = AgentState::Working;
    state.agent_view_override = Some(AgentViewSetParams {
        source: "example.views".to_string(),
        label: None,
        filter: Some(AgentViewFilter::Eq {
            field: AgentViewField::Builtin(AgentViewBuiltinField::Agent),
            value: AgentViewValue::String("custom-agent".to_string()),
        }),
        sort: Vec::new(),
    });

    let entries = agent_panel_entries(&state);
    assert_eq!(entries.len(), 1);
    assert_eq!(entries[0].agent_kind_label.as_deref(), Some("custom-agent"));
}

#[test]
fn validation_rejects_mismatched_context_type() {
    let mut spec = AgentViewSetParams {
        source: "example.views".to_string(),
        label: None,
        filter: Some(AgentViewFilter::Eq {
            field: AgentViewField::Builtin(AgentViewBuiltinField::Status),
            value: AgentViewValue::Context {
                context: AgentViewContext::CurrentWorkspaceId,
            },
        }),
        sort: Vec::new(),
    };

    assert!(validate_agent_view(&mut spec)
        .unwrap_err()
        .contains("context type"));
}

#[test]
fn remote_rows_are_told_apart_by_their_hosts() {
    let mut state = test_state();
    let mut registrations = Vec::new();
    for (order, target) in ["box", "den"].into_iter().enumerate() {
        let source = RemoteAgentSourceConfig {
            target: target.into(),
            label: None,
            session: "default".into(),
        };
        registrations.push(RemoteHostRegistration {
            key: RemoteHostKey::for_source(&source),
            label: source.fleet_label(),
            generation: 1,
            order,
        });
    }
    state.remote_agents.reconcile(&registrations);
    for registration in &registrations {
        let shown = RemoteAgentPresentation {
            workspace_id: "w1".into(),
            tab_id: "w1:t1".into(),
            pane_id: "w1:p1".into(),
            workspace_label: "repo".into(),
            tab_label: Some("review".into()),
            pane_label: None,
            terminal_title: None,
            terminal_title_stripped: None,
            agent_label: "shown".into(),
            agent_kind_label: None,
            agent: None,
            state: AgentState::Blocked,
            seen: true,
            state_labels: no_metadata(),
            tokens: no_metadata(),
            display_order: (0, 0, 0),
            order: (4, 5, 6),
        };
        state.remote_agents.apply_update(
            RemoteAgentUpdate::immediate(
                registration.key.clone(),
                1,
                RemoteAgentUpdateKind::Snapshot(RemoteAgentSnapshot {
                    version: "0.8.0".into(),
                    protocol: 20,
                    agents: vec![shown],
                }),
            ),
            &mut state.next_agent_state_change_seq,
        );
    }

    let entries = agent_panel_entries(&state);
    assert_eq!(entries.len(), 2);
    assert_eq!(entries[0].view_pane_id, "box\u{1f}default\u{1f}w1:p1");
    assert_eq!(entries[1].view_pane_id, "den\u{1f}default\u{1f}w1:p1");
    assert_eq!(entries[0].order, (1, 4, 5, 6));
    assert_eq!(entries[1].order, (2, 4, 5, 6));
    assert_eq!(entries[0].primary_label, "repo @ box");
    assert_eq!(entries[0].primary_tab_label.as_deref(), Some("review"));
    assert_eq!(entries[0].agent_label.as_deref(), Some("shown"));
    assert_eq!(entries[0].state, AgentState::Blocked);
    assert_eq!(entries[0].local_target(), None);
}
