use herdr::detect::{parse_agent_label, Agent, AgentLabel, AgentState};
use herdr::ordered_map::{MetadataMap, OrderedMap};
use herdr::protocol::PROTOCOL_VERSION;
use herdr::remote_agents::fleet::{
    parse_snapshot_line, snapshot_for_fleet, FleetAgentInfo, FleetPaneInfo, FleetResponseResult,
    FleetSessionSnapshot, FleetSuccessResponse, FleetTabInfo, FleetWorkspaceInfo,
};
use herdr::remote_agents::sanitize::{
    is_bidi_control, sanitize_remote_map, sanitize_remote_text, validate_remote_id,
};
use herdr::schema::{
    agent_status_for_presentation, agent_status_or_unknown, presentation_state, AgentStatus,
};

fn known_labels() -> Vec<AgentLabel> {
    vec![AgentLabel {
        label: "known-agent".into(),
        agent: Agent::Claude,
    }]
}

fn no_metadata() -> MetadataMap {
    OrderedMap::new()
}

fn workspace(id: &str) -> FleetWorkspaceInfo {
    FleetWorkspaceInfo {
        workspace_id: id.into(),
        label: format!("label of {id}"),
    }
}

fn tab(id: &str, workspace: &str) -> FleetTabInfo {
    FleetTabInfo {
        tab_id: id.into(),
        workspace_id: workspace.into(),
        number: 1,
        label: "tab".into(),
        custom_label: Some(false),
    }
}

fn pane(id: &str, tab: &str, workspace: &str) -> FleetPaneInfo {
    FleetPaneInfo {
        pane_id: id.into(),
        number: None,
        terminal_id: format!("terminal of {id}"),
        workspace_id: workspace.into(),
        tab_id: tab.into(),
    }
}

fn agent(pane: &str, tab: &str, workspace: &str) -> FleetAgentInfo {
    FleetAgentInfo {
        terminal_id: format!("terminal of {pane}"),
        name: None,
        agent: None,
        title: None,
        terminal_title: None,
        terminal_title_stripped: None,
        display_agent: None,
        agent_status: AgentStatus::Done,
        state_labels: no_metadata(),
        tokens: no_metadata(),
        workspace_id: workspace.into(),
        tab_id: tab.into(),
        pane_id: pane.into(),
    }
}

fn session() -> FleetSessionSnapshot {
    FleetSessionSnapshot {
        version: "0.8.0".into(),
        protocol: PROTOCOL_VERSION,
        workspaces: vec![workspace("w1"), workspace("w2")],
        tabs: vec![tab("t1", "w1"), tab("t2", "w2")],
        panes: vec![pane("p1", "t1", "w1"), pane("p2", "t2", "w2")],
        agents: vec![agent("p1", "t1", "w1")],
    }
}

fn refusal(session: FleetSessionSnapshot) -> String {
    snapshot_for_fleet(session, &known_labels()).unwrap_err()
}

#[test]
fn sound_session_is_presented() {
    let accepted = snapshot_for_fleet(session(), &known_labels()).unwrap();
    assert_eq!(accepted.version, "0.8.0");
    assert_eq!(accepted.protocol, PROTOCOL_VERSION);
    assert_eq!(accepted.agents.len(), 1);
    let shown = &accepted.agents[0];
    assert_eq!(shown.workspace_label, "label of w1");
    assert_eq!(shown.tab_label, None);
    assert_eq!(shown.agent_label, "agent");
    assert_eq!(shown.agent_kind_label, None);
    assert_eq!((shown.state, shown.seen), (AgentState::Idle, false));
    assert_eq!(shown.display_order, (0, 0, 0));
    assert_eq!(shown.order, (0, 1, 1));
}

#[test]
fn agent_name_prefers_what_is_meant_for_display() {
    let mut reported = session();
    reported.agents[0].agent = Some("kind".into());
    assert_eq!(snapshot_for_fleet(reported, &known_labels()).unwrap().agents[0].agent_label, "kind");
    let mut reported = session();
    reported.agents[0].agent = Some("kind".into());
    reported.agents[0].name = Some("name".into());
    assert_eq!(snapshot_for_fleet(reported, &known_labels()).unwrap().agents[0].agent_label, "name");
    let mut reported = session();
    reported.agents[0].name = Some("name".into());
    reported.agents[0].display_agent = Some("shown".into());
    assert_eq!(snapshot_for_fleet(reported, &known_labels()).unwrap().agents[0].agent_label, "shown");
}

#[test]
fn protocol_and_sizes_are_checked_first() {
    let mut reported = session();
    reported.protocol = 19;
    assert_eq!(
        refusal(reported),
        "remote protocol 19 is incompatible with local protocol 20"
    );
    let mut reported = session();
    reported.workspaces = (0..513).map(|i| workspace(&format!("w{i}"))).collect();
    assert_eq!(
        refusal(reported),
        "remote snapshot contains more than 512 workspaces"
    );
    let mut reported = session();
    reported.tabs = (0..2049).map(|i| tab(&format!("t{i}"), "w1")).collect();
    assert_eq!(refusal(reported), "remote snapshot contains more than 2048 tabs");
    let mut reported = session();
    reported.panes = (0..4097).map(|i| pane(&format!("p{i}"), "t1", "w1")).collect();
    assert_eq!(refusal(reported), "remote snapshot contains more than 4096 panes");
    let mut reported = session();
    reported.agents = (0..1025).map(|i| agent(&format!("p{i}"), "t1", "w1")).collect();
    assert_eq!(
        refusal(reported),
        "remote snapshot contains more than 1024 agents"
    );
}

#[test]
fn identifiers_are_checked() {
    let mut reported = session();
    reported.workspaces[1].workspace_id = String::new();
    assert_eq!(refusal(reported), "remote workspace id is invalid");
    let mut reported = session();
    reported.tabs[0].tab_id = "t\n".into();
    assert_eq!(refusal(reported), "remote tab id is invalid");
    let mut reported = session();
    reported.panes[0].pane_id = "p".repeat(257);
    assert_eq!(refusal(reported), "remote pane id is invalid");
    let mut reported = session();
    reported.panes[0].terminal_id = "\u{7f}".into();
    assert_eq!(refusal(reported), "remote terminal id is invalid");
    assert!(validate_remote_id("pane", &"p".repeat(256)).is_ok());
}

#[test]
fn duplicates_are_refused() {
    let mut reported = session();
    reported.workspaces[1].workspace_id = "w1".into();
    assert_eq!(
        refusal(reported),
        "remote snapshot contains duplicate workspace ids"
    );
    let mut reported = session();
    reported.tabs.push(tab("t1", "w2"));
    assert_eq!(refusal(reported), "remote snapshot contains duplicate tab ids");
    let mut reported = session();
    reported.panes.push(pane("p1", "t2", "w2"));
    assert_eq!(refusal(reported), "remote snapshot contains duplicate pane ids");
    let mut reported = session();
    reported.agents.push(agent("p1", "t1", "w1"));
    assert_eq!(
        refusal(reported),
        "remote snapshot contains duplicate agent pane ids"
    );
}

#[test]
fn references_have_to_agree() {
    let mut reported = session();
    reported.tabs[0].workspace_id = "w9".into();
    assert_eq!(refusal(reported), "remote tab references an unknown workspace");
    let mut reported = session();
    reported.panes[0].workspace_id = "w9".into();
    assert_eq!(refusal(reported), "remote pane references an unknown workspace");
    let mut reported = session();
    reported.panes[0].tab_id = "t9".into();
    assert_eq!(refusal(reported), "remote pane references an unknown tab");
    let mut reported = session();
    reported.panes[0].tab_id = "t2".into();
    assert_eq!(
        refusal(reported),
        "remote pane tab belongs to a different workspace"
    );
    let mut reported = session();
    reported.agents[0].pane_id = "p9".into();
    assert_eq!(refusal(reported), "remote agent references an unknown pane");
    let mut reported = session();
    reported.agents[0].tab_id = "t2".into();
    assert_eq!(
        refusal(reported),
        "remote agent identity disagrees with its pane"
    );
}

#[test]
fn metadata_is_limited_and_cleaned() {
    let mut reported = session();
    for i in 0..65 {
        reported.agents[0].tokens.insert(format!("token{i}"), "x".into());
    }
    assert_eq!(
        refusal(reported),
        "remote agent metadata contains more than 64 entries"
    );
    let mut tokens = no_metadata();
    tokens.insert("good_key-1".into(), "a\u{1b}b\u{2066}c".into());
    tokens.insert("bad key".into(), "x".into());
    tokens.insert(String::new(), "x".into());
    tokens.insert("k".repeat(33), "x".into());
    let cleaned = sanitize_remote_map(tokens, 2);
    assert_eq!(cleaned.len(), 1);
    assert_eq!(cleaned.get("good_key-1").map(String::as_str), Some("ab"));
}

#[test]
fn remote_text_is_shown_without_control_characters() {
    let text = "a\u{0}b\u{85}c\u{200f}d\u{202e}e";
    assert_eq!(sanitize_remote_text(text, 256), "abcde");
    assert_eq!(sanitize_remote_text(text, 3), "abc");
    assert_eq!(sanitize_remote_text(&sanitize_remote_text(text, 3), 3), "abc");
    assert!(is_bidi_control('\u{061c}'));
    assert!(is_bidi_control('\u{2069}'));
    assert!(!is_bidi_control('\u{206a}'));
}

#[test]
fn answers_that_are_no_snapshots_are_refused() {
    assert_eq!(
        parse_snapshot_line(Err("expected value at line 1 column 1".into()), &known_labels()).unwrap_err(),
        "invalid remote snapshot response: expected value at line 1 column 1"
    );
    assert_eq!(
        parse_snapshot_line(
            Ok(FleetSuccessResponse {
                result: FleetResponseResult::Other
            }),
            &known_labels()
        )
        .unwrap_err(),
        "remote response was not a session snapshot"
    );
    assert!(parse_snapshot_line(
        Ok(FleetSuccessResponse {
            result: FleetResponseResult::SessionSnapshot { snapshot: session() }
        }),
        &known_labels()
    )
    .is_ok());
}

#[test]
fn display_orders_follow_the_session() {
    let mut reported = session();
    reported.tabs.push(tab("t3", "w1"));
    reported.panes.push(pane("p3", "t3", "w1"));
    reported.panes.push(pane("p4", "t1", "w1"));
    reported.agents = vec![
        agent("p4", "t1", "w1"),
        agent("p3", "t3", "w1"),
        agent("p2", "t2", "w2"),
        agent("p1", "t1", "w1"),
    ];
    let accepted = snapshot_for_fleet(reported, &known_labels()).unwrap();
    let orders: Vec<_> = accepted.agents.iter().map(|agent| agent.display_order).collect();
    assert_eq!(orders, vec![(0, 0, 1), (0, 1, 0), (1, 0, 0), (0, 0, 0)]);
    assert_eq!(accepted.agents[0].order, (0, 1, 2));
    assert_eq!(accepted.agents[1].tab_label.as_deref(), Some("tab"));
    assert_eq!(accepted.agents[2].tab_label, None);
}

#[test]
fn statuses_survive_their_names_and_states() {
    for (status, name) in [
        (AgentStatus::Idle, "idle"),
        (AgentStatus::Working, "working"),
        (AgentStatus::Blocked, "blocked"),
        (AgentStatus::Done, "done"),
        (AgentStatus::Unknown, "unknown"),
    ] {
        assert_eq!(agent_status_or_unknown(name), status);
        let (state, seen) = presentation_state(status);
        assert_eq!(agent_status_for_presentation(state, seen), status);
    }
    assert_eq!(agent_status_or_unknown("Idle"), AgentStatus::Unknown);
}

#[test]
fn agent_kinds_are_known_by_their_labels() {
    let known = known_labels();
    assert_eq!(parse_agent_label(&known, "known-agent"), Some(Agent::Claude));
    assert_eq!(parse_agent_label(&known, "Known-Agent"), None);
    assert_eq!(parse_agent_label(&Vec::new(), "known-agent"), None);

    for (label, agent) in [("known-agent", Some(Agent::Claude)), ("custom-agent", None)] {
        let mut reported = session();
        reported.agents[0].agent = Some(label.into());
        let accepted = snapshot_for_fleet(reported, &known).unwrap();
        assert_eq!(accepted.agents[0].agent, agent);
        assert_eq!(accepted.agents[0].agent_kind_label.as_deref(), Some(label));
    }
}
