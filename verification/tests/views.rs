use std::cmp::Ordering;

use herdr::agent_view::apply::apply_agent_view;
use herdr::agent_view::entry::{AgentPanelEntry, AgentPanelTarget};
use herdr::agent_view::order::{compare_entries, compare_optional_values};
use herdr::agent_view::validation::{
    normalize_label, normalize_source, validate_agent_view, validate_agent_view_source,
    validate_field, validate_field_value, validate_filter, validate_sort_field, validate_token,
};
use herdr::agent_view::value::{
    builtin_field_value, context_value, field_value, matches_filter, operand_value,
    presented_workspace_idx, sort_value, status_name, tab_attention_priority, EvalValue,
};
use herdr::detect::AgentState;
use herdr::ordered_map::{MetadataMap, OrderedMap};
use herdr::remote_agents::registry::RemoteAgentRegistry;
use herdr::schema::view::{
    AgentViewBuiltinField, AgentViewBuiltinSortField, AgentViewContext, AgentViewField,
    AgentViewFilter, AgentViewSetParams, AgentViewSort, AgentViewSortField, AgentViewSortOrder,
    AgentViewValue,
};
use herdr::schema::AgentStatus;
use herdr::state::{AgentPanelSort, AppState, Mode, Tab, Workspace};

fn no_metadata() -> MetadataMap {
    OrderedMap::new()
}

fn state() -> AppState {
    AppState {
        workspaces: vec![Workspace {
            id: "one".into(),
            label: "one".into(),
            tabs: vec![Tab {
                number: 7,
                custom_name: None,
                panes: Vec::new(),
                focused_pane: 0,
                agent_status: AgentStatus::Unknown,
            }],
            active_tab: 0,
            agent_status: AgentStatus::Unknown,
            tokens: no_metadata(),
            worktree: None,
        }],
        active: Some(0),
        selected: 0,
        mode: Mode::Terminal,
        agent_panel_sort: AgentPanelSort::Spaces,
        agent_view_override: None,
        remote_agents: RemoteAgentRegistry::default(),
        next_agent_state_change_seq: 0,
    }
}

fn entry(name: &str, state: AgentState, seen: bool, seq: Option<u64>) -> AgentPanelEntry {
    AgentPanelEntry {
        target: AgentPanelTarget::Local { ws_idx: 0, tab_idx: 0, pane_idx: 0 },
        view_workspace_id: "one".into(),
        view_tab_id: "one:t7".into(),
        view_pane_id: name.into(),
        order: (0, 0, 0, 0),
        primary_label: String::new(),
        primary_tab_label: None,
        pane_label: None,
        terminal_title: None,
        terminal_title_stripped: None,
        agent_label: None,
        agent_kind_label: None,
        agent: None,
        state,
        seen,
        last_agent_state_change_seq: seq,
        state_labels: no_metadata(),
        tokens: no_metadata(),
    }
}

fn builtin(field: AgentViewBuiltinField) -> AgentViewField {
    AgentViewField::Builtin(field)
}

fn token(name: &str) -> AgentViewField {
    AgentViewField::Token { token: name.into() }
}

fn string(text: &str) -> AgentViewValue {
    AgentViewValue::String(text.into())
}

fn has_seen() -> AgentViewFilter {
    AgentViewFilter::Exists {
        field: builtin(AgentViewBuiltinField::Seen),
    }
}

fn sort(field: AgentViewBuiltinSortField, order: AgentViewSortOrder) -> AgentViewSort {
    AgentViewSort {
        field: AgentViewSortField::Builtin(field),
        order,
    }
}

fn view(filter: Option<AgentViewFilter>, sort: Vec<AgentViewSort>) -> AgentViewSetParams {
    AgentViewSetParams {
        source: "example.views".into(),
        label: None,
        filter,
        sort,
    }
}

fn names(entries: &[AgentPanelEntry]) -> Vec<&str> {
    entries.iter().map(|entry| entry.view_pane_id.as_str()).collect()
}

#[test]
fn sources_are_trimmed_and_checked() {
    assert_eq!(normalize_source("  a:b.c_d-E9\n"), Ok("a:b.c_d-E9".to_string()));
    assert_eq!(validate_agent_view_source("x"), Ok("x".to_string()));
    assert_eq!(normalize_source(&"a".repeat(120)).unwrap().len(), 120);
    for bad in ["", " ", "a b", "\u{e4}", &"a".repeat(121)] {
        assert_eq!(
            normalize_source(bad),
            Err("agent view source must be non-empty, at most 120 characters, and contain only ASCII letters, digits, colon, dot, underscore, or hyphen".to_string())
        );
    }
}

#[test]
fn labels_lose_control_characters() {
    assert_eq!(normalize_label(" a\u{7}b "), Ok("ab".to_string()));
    assert_eq!(normalize_label("\u{1} a"), Ok(" a".to_string()));
    assert_eq!(normalize_label(&"\u{fc}".repeat(32)).unwrap().chars().count(), 32);
    for bad in ["", "\u{7}", &"a".repeat(33)] {
        assert_eq!(
            normalize_label(bad),
            Err("agent view label must be non-empty and at most 32 characters".to_string())
        );
    }
}

#[test]
fn tokens_are_checked_in_filters_and_sorts() {
    assert!(validate_token(&"a".repeat(32)).is_ok());
    for bad in ["", "a b", "\u{e4}", &"a".repeat(33)] {
        let error = Err(format!("invalid agent view token `{bad}`"));
        assert_eq!(validate_token(bad), error);
        assert_eq!(validate_field(&token(bad)), error);
        assert_eq!(
            validate_sort_field(&AgentViewSortField::Token { token: bad.into() }),
            error
        );
    }
    assert!(validate_field(&builtin(AgentViewBuiltinField::Agent)).is_ok());
    assert!(validate_sort_field(&AgentViewSortField::Builtin(
        AgentViewBuiltinSortField::Attention
    ))
    .is_ok());
}

#[test]
fn values_have_to_fit_their_fields() {
    let context = |context| AgentViewValue::Context { context };
    let workspace = builtin(AgentViewBuiltinField::WorkspaceId);
    let tab = builtin(AgentViewBuiltinField::TabId);
    assert!(validate_field_value(&workspace, &context(AgentViewContext::CurrentWorkspaceId)).is_ok());
    assert!(validate_field_value(&tab, &context(AgentViewContext::CurrentTabId)).is_ok());
    assert_eq!(
        validate_field_value(&tab, &context(AgentViewContext::CurrentWorkspaceId)),
        Err("agent view context type does not match the selected field".to_string())
    );
    let seen = builtin(AgentViewBuiltinField::Seen);
    let seq = builtin(AgentViewBuiltinField::StateChangeSeq);
    assert!(validate_field_value(&seen, &AgentViewValue::Bool(true)).is_ok());
    assert!(validate_field_value(&seq, &AgentViewValue::Number(4)).is_ok());
    let mismatch = Err("agent view value type does not match the selected field".to_string());
    assert_eq!(validate_field_value(&seen, &string("true")), mismatch);
    assert_eq!(validate_field_value(&seq, &AgentViewValue::Bool(true)), mismatch);
    assert_eq!(validate_field_value(&workspace, &AgentViewValue::Number(1)), mismatch);
    assert_eq!(validate_field_value(&token("t"), &AgentViewValue::Bool(true)), mismatch);
    assert!(validate_field_value(&token("t"), &string("anything")).is_ok());
    let status = builtin(AgentViewBuiltinField::Status);
    assert!(validate_field_value(&status, &string("done")).is_ok());
    assert_eq!(
        validate_field_value(&status, &string("asleep")),
        Err("unknown agent status `asleep`".to_string())
    );
}

#[test]
fn filters_are_limited_in_depth_and_size() {
    let mut deep = has_seen();
    for _ in 0..7 {
        deep = AgentViewFilter::Not { filter: Box::new(deep) };
    }
    let mut nodes = 0;
    assert!(validate_filter(&deep, 1, &mut nodes).is_ok());
    assert_eq!(nodes, 8);
    let deeper = AgentViewFilter::Not { filter: Box::new(deep) };
    let mut nodes = 0;
    assert_eq!(
        validate_filter(&deeper, 1, &mut nodes),
        Err("agent view filter may be nested at most 8 levels".to_string())
    );
    assert_eq!(nodes, 8);

    let wide = |n: usize| AgentViewFilter::Any {
        filters: (0..n).map(|_| has_seen()).collect(),
    };
    let mut nodes = 0;
    assert!(validate_filter(&wide(63), 1, &mut nodes).is_ok());
    assert_eq!(nodes, 64);
    let mut nodes = 0;
    assert_eq!(
        validate_filter(&wide(64), 1, &mut nodes),
        Err("agent view filter may contain at most 64 nodes".to_string())
    );
    assert_eq!(nodes, 65);
    let mut nodes = 0;
    assert_eq!(
        validate_filter(&wide(0), 1, &mut nodes),
        Err("agent view all/any filters must not be empty".to_string())
    );
    let many = |n: usize| AgentViewFilter::In {
        field: builtin(AgentViewBuiltinField::PaneId),
        values: (0..n).map(|i| string(&format!("p{i}"))).collect(),
    };
    let mut nodes = 0;
    assert!(validate_filter(&many(32), 1, &mut nodes).is_ok());
    for n in [0, 33] {
        assert_eq!(
            validate_filter(&many(n), 1, &mut nodes),
            Err("agent view in filters require 1 to 32 values".to_string())
        );
    }
}

#[test]
fn views_are_normalized_when_they_are_checked() {
    let mut spec = view(Some(has_seen()), Vec::new());
    spec.source = " s ".into();
    spec.label = Some(" l ".into());
    assert!(validate_agent_view(&mut spec).is_ok());
    assert_eq!((spec.source.as_str(), spec.label.as_deref()), ("s", Some("l")));

    spec.source = " ? ".into();
    assert!(validate_agent_view(&mut spec).is_err());
    assert_eq!((spec.source.as_str(), spec.label.as_deref()), (" ? ", Some("l")));

    spec.source = " s ".into();
    spec.label = Some(" ".into());
    assert!(validate_agent_view(&mut spec).is_err());
    assert_eq!((spec.source.as_str(), spec.label.as_deref()), ("s", None));

    let sorts = |n: usize| -> Vec<AgentViewSort> {
        (0..n)
            .map(|_| sort(AgentViewBuiltinSortField::Seen, AgentViewSortOrder::Asc))
            .collect()
    };
    assert!(validate_agent_view(&mut view(None, sorts(8))).is_ok());
    assert_eq!(
        validate_agent_view(&mut view(None, sorts(9))),
        Err("agent view sort may contain at most 8 fields".to_string())
    );
    let bad_sort = AgentViewSort {
        field: AgentViewSortField::Token { token: "?".into() },
        order: AgentViewSortOrder::Asc,
    };
    assert_eq!(
        validate_agent_view(&mut view(None, vec![bad_sort])),
        Err("invalid agent view token `?`".to_string())
    );
}

#[test]
fn values_of_an_agent() {
    let app = state();
    let mut agent = entry("p", AgentState::Idle, false, Some(9));
    agent.agent_kind_label = Some("kind".into());
    agent.order = (1, 2, 3, 4);
    agent.tokens.insert("t".into(), "v".into());
    let text = |value: Option<EvalValue>| match value {
        Some(EvalValue::String(text)) => Some(text),
        _ => None,
    };
    assert_eq!(text(builtin_field_value(&app, &agent, AgentViewBuiltinField::Status)).as_deref(), Some("done"));
    assert_eq!(text(field_value(&app, &agent, &builtin(AgentViewBuiltinField::TabId))).as_deref(), Some("one:t7"));
    assert_eq!(text(field_value(&app, &agent, &builtin(AgentViewBuiltinField::Agent))).as_deref(), Some("kind"));
    assert_eq!(text(field_value(&app, &agent, &token("t"))).as_deref(), Some("v"));
    assert!(field_value(&app, &agent, &token("u")).is_none());
    assert!(matches!(
        field_value(&app, &agent, &builtin(AgentViewBuiltinField::StateChangeSeq)),
        Some(EvalValue::Number(9))
    ));
    let to_sort = |field| sort_value(&app, &agent, &AgentViewSortField::Builtin(field));
    assert!(matches!(
        to_sort(AgentViewBuiltinSortField::WorkspaceOrder),
        Some(EvalValue::Order([1, 2, 0, 0]))
    ));
    assert!(matches!(to_sort(AgentViewBuiltinSortField::TabOrder), Some(EvalValue::Number(3))));
    assert!(matches!(to_sort(AgentViewBuiltinSortField::PaneOrder), Some(EvalValue::Number(4))));
    assert!(matches!(to_sort(AgentViewBuiltinSortField::Attention), Some(EvalValue::Number(3))));
    assert!(matches!(to_sort(AgentViewBuiltinSortField::Seen), Some(EvalValue::Bool(false))));
    assert!(matches!(
        operand_value(&app, &AgentViewValue::Number(5)),
        Some(EvalValue::Number(5))
    ));
}

#[test]
fn context_follows_the_presented_workspace() {
    let mut app = state();
    let text = |value: Option<EvalValue>| match value {
        Some(EvalValue::String(text)) => text,
        other => panic!("expected a text, got {other:?}"),
    };
    assert_eq!(text(context_value(&app, AgentViewContext::CurrentWorkspaceId)), "one");
    assert_eq!(text(context_value(&app, AgentViewContext::CurrentTabId)), "one:t7");
    app.mode = Mode::Navigate;
    app.selected = 4;
    assert_eq!(presented_workspace_idx(&app), None);
    assert!(context_value(&app, AgentViewContext::CurrentWorkspaceId).is_none());
    app.mode = Mode::Settings;
    app.active = Some(4);
    assert_eq!(presented_workspace_idx(&app), Some(4));
    assert!(context_value(&app, AgentViewContext::CurrentTabId).is_none());
    app.active = Some(0);
    app.workspaces[0].active_tab = 3;
    assert!(context_value(&app, AgentViewContext::CurrentTabId).is_none());
}

#[test]
fn filters_combine() {
    let app = state();
    let agent = entry("p", AgentState::Working, true, None);
    let is = |value: &str| AgentViewFilter::Eq {
        field: builtin(AgentViewBuiltinField::Status),
        value: string(value),
    };
    assert!(matches_filter(&app, &agent, &is("working")));
    assert!(!matches_filter(&app, &agent, &is("idle")));
    let any = AgentViewFilter::Any { filters: vec![is("idle"), is("working")] };
    let all = AgentViewFilter::All { filters: vec![is("idle"), is("working")] };
    assert!(matches_filter(&app, &agent, &any));
    assert!(!matches_filter(&app, &agent, &all));
    assert!(matches_filter(&app, &agent, &AgentViewFilter::Not { filter: Box::new(all) }));
    let one_of = AgentViewFilter::In {
        field: builtin(AgentViewBuiltinField::PaneId),
        values: vec![string("q"), string("p")],
    };
    assert!(matches_filter(&app, &agent, &one_of));
    assert!(!matches_filter(
        &app,
        &agent,
        &AgentViewFilter::Exists { field: builtin(AgentViewBuiltinField::StateChangeSeq) }
    ));
    assert!(matches_filter(&app, &agent, &has_seen()));
}

#[test]
fn absent_values_are_sorted_last_in_both_directions() {
    for order in [AgentViewSortOrder::Asc, AgentViewSortOrder::Desc] {
        assert_eq!(
            compare_optional_values(Some(EvalValue::Number(1)), None, order),
            Ordering::Less
        );
        assert_eq!(
            compare_optional_values(None, Some(EvalValue::Number(1)), order),
            Ordering::Greater
        );
        assert_eq!(compare_optional_values(None, None, order), Ordering::Equal);
    }
}

#[test]
fn values_compare_by_kind_and_then_by_value() {
    let less = |a: EvalValue, b: EvalValue| {
        compare_optional_values(Some(a), Some(b), AgentViewSortOrder::Asc) == Ordering::Less
    };
    let text = |text: &str| EvalValue::String(text.into());
    assert!(less(text("a"), text("ab")));
    assert!(less(text("Z"), text("a")));
    assert!(less(EvalValue::Bool(false), EvalValue::Bool(true)));
    assert!(less(EvalValue::Order([0, 9, 0, 0]), EvalValue::Order([1, 0, 0, 0])));
    assert!(less(text("z"), EvalValue::Bool(false)));
    assert!(less(EvalValue::Bool(true), EvalValue::Number(0)));
    assert!(less(EvalValue::Number(9), EvalValue::Order([0, 0, 0, 0])));
    assert_eq!(
        compare_optional_values(
            Some(EvalValue::Number(1)),
            Some(EvalValue::Number(2)),
            AgentViewSortOrder::Desc
        ),
        Ordering::Greater
    );
    assert_eq!(
        compare_optional_values(Some(text("a")), Some(text("a")), AgentViewSortOrder::Desc),
        Ordering::Equal
    );
}

#[test]
fn later_sort_fields_break_ties() {
    let app = state();
    let a = entry("a", AgentState::Idle, true, Some(1));
    let b = entry("b", AgentState::Idle, true, Some(2));
    let sorts = [
        sort(AgentViewBuiltinSortField::Status, AgentViewSortOrder::Asc),
        sort(AgentViewBuiltinSortField::StateChangeSeq, AgentViewSortOrder::Desc),
    ];
    assert_eq!(compare_entries(&app, &a, &b, &sorts), Ordering::Greater);
    assert_eq!(compare_entries(&app, &b, &a, &sorts), Ordering::Less);
    assert_eq!(compare_entries(&app, &a, &b, &sorts[..1]), Ordering::Equal);
    assert_eq!(compare_entries(&app, &a, &b, &[]), Ordering::Equal);
}

#[test]
fn priority_puts_attention_first_and_keeps_ties() {
    let mut app = state();
    app.agent_panel_sort = AgentPanelSort::Priority;
    let mut entries = vec![
        entry("unknown", AgentState::Unknown, true, Some(9)),
        entry("idle", AgentState::Idle, true, None),
        entry("working-old", AgentState::Working, true, Some(1)),
        entry("working-none", AgentState::Working, true, None),
        entry("working-none-too", AgentState::Working, false, None),
        entry("working-new", AgentState::Working, true, Some(2)),
        entry("done", AgentState::Idle, false, None),
        entry("blocked", AgentState::Blocked, false, None),
    ];
    apply_agent_view(&app, &mut entries);
    let expected = vec![
        "blocked",
        "done",
        "working-new",
        "working-old",
        "working-none",
        "working-none-too",
        "idle",
        "unknown",
    ];
    assert_eq!(names(&entries), expected);
    apply_agent_view(&app, &mut entries);
    assert_eq!(names(&entries), expected);
}

#[test]
fn view_filters_and_its_sort_replaces_the_priority() {
    let mut app = state();
    app.agent_panel_sort = AgentPanelSort::Priority;
    app.agent_view_override = Some(view(
        Some(AgentViewFilter::Not {
            filter: Box::new(AgentViewFilter::Eq {
                field: builtin(AgentViewBuiltinField::PaneId),
                value: string("gone"),
            }),
        }),
        vec![sort(AgentViewBuiltinSortField::StateChangeSeq, AgentViewSortOrder::Asc)],
    ));
    let mut entries = vec![
        entry("none", AgentState::Blocked, true, None),
        entry("gone", AgentState::Blocked, true, Some(0)),
        entry("two", AgentState::Idle, true, Some(2)),
        entry("one", AgentState::Unknown, true, Some(1)),
        entry("two-too", AgentState::Blocked, true, Some(2)),
    ];
    apply_agent_view(&app, &mut entries);
    assert_eq!(names(&entries), vec!["one", "two", "two-too", "none"]);
}

#[test]
fn view_without_sort_leaves_the_order_of_spaces() {
    let mut app = state();
    app.agent_view_override = Some(view(None, Vec::new()));
    let mut entries = vec![
        entry("idle", AgentState::Idle, true, None),
        entry("blocked", AgentState::Blocked, true, Some(3)),
    ];
    apply_agent_view(&app, &mut entries);
    assert_eq!(names(&entries), vec!["idle", "blocked"]);
}

#[test]
fn statuses_and_priorities_of_states() {
    let cases = [
        (AgentState::Blocked, true, "blocked", 4),
        (AgentState::Idle, false, "done", 3),
        (AgentState::Working, true, "working", 2),
        (AgentState::Idle, true, "idle", 1),
        (AgentState::Unknown, false, "unknown", 0),
    ];
    for (state, seen, name, priority) in cases {
        assert_eq!(status_name(state, seen), name);
        assert_eq!(tab_attention_priority(state, seen), priority);
    }
}
