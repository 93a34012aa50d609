//! What the operations on views, sessions and texts give back, whatever way they take.

use std::cmp::Ordering;

use vstd::prelude::*;
use vstd::string::*;

use crate::agent_view::apply::apply_agent_view;
use crate::agent_view::entry::{AgentPanelEntry, AgentPanelTarget};
use crate::agent_view::filter_laws::in_filters_take_any_of_their_values;
use crate::agent_view::order::compare_entries;
use crate::agent_view::sort_laws::{
    sorted_views_are_in_order, views_show_what_passes, views_sort_by_agent,
};
use crate::agent_view::validation::{
    filter_fault, label_chars, normal_label, normal_source, normalize_label, sort_field_fault,
    validate_agent_view, validate_agent_view_source, validate_token, view_fault,
};
use crate::agent_view::validation_laws::{accepted_views, tokens_are_checked};
use crate::agent_view::value::{field_value, filter_matches, matches_filter, sort_value, EvalValue};
use crate::config::RemoteAgentSourceConfig;
use crate::detect::AgentState;
use crate::remote_agents::host::{host_key, key_parts_read_back, RemoteHostKey};
use crate::remote_agents::panel_laws::rows_show_what_is_stored;
use crate::remote_agents::registry::{is_panel, PanelModel};
use crate::remote_agents::sanitize::{
    metadata_key, sanitize_remote_map, sanitize_remote_option, sanitize_remote_text, sanitized,
    valid_remote_id, validate_remote_id,
};
use crate::ordered_map::MetadataMap;
use crate::schema::session::{RemoteAgentInfo, ResponseResult, SessionSnapshot, SuccessResponse};
use crate::schema::view::{
    AgentViewBuiltinField, AgentViewBuiltinSortField, AgentViewField, AgentViewFilter,
    AgentViewSetParams, AgentViewSort, AgentViewSortField, AgentViewSortOrder, AgentViewValue,
};
use crate::schema::{
    agent_status_for_presentation, agent_status_or_unknown, presentation_state,
    statuses_have_their_names, AgentStatus,
};
use crate::session::{remote_agent_models, remote_info_models, reports, App};
use crate::state::{public_pane_id_for_number, public_tab_id_for_number, AgentPanelSort, AppState};
use crate::text::{decimal, decimal_text, same_text, text_before, text_less, trim_text, trimmed};
use crate::ui::{agent_panel_entries, unfiltered_entries};

verus! {

/// An agent passes a filter by several values if and only if it passes the filter by one of them;
/// it passes a negation if and only if it does not pass what is negated.
pub proof fn filters_agree_with_each_other(
    app: AppState,
    entry: AgentPanelEntry,
    field: AgentViewField,
    values: Vec<AgentViewValue>,
    by_values: bool,
    by_value: Seq<bool>,
    negated: bool,
)
    requires
        call_ensures(
            matches_filter,
            (&app, &entry, &AgentViewFilter::In { field, values }),
            by_values,
        ),
        by_value.len() == values@.len(),
        forall|i: int|
            0 <= i < values@.len() ==> call_ensures(
                matches_filter,
                (&app, &entry, &AgentViewFilter::Eq { field, value: values@[i] }),
                #[trigger] by_value[i],
            ),
        call_ensures(
            matches_filter,
            (
                &app,
                &entry,
                &AgentViewFilter::Not { filter: Box::new(AgentViewFilter::In { field, values }) },
            ),
            negated,
        ),
    ensures
        by_values <==> exists|i: int| 0 <= i < by_value.len() && #[trigger] by_value[i],
        negated <==> !by_values,
{
    in_filters_take_any_of_their_values(app, entry, field, values);
    if by_values {
        let i = choose|i: int|
            0 <= i < values@.len() && filter_matches(
                app,
                entry@,
                AgentViewFilter::Eq { field, value: #[trigger] values@[i] },
            );
        assert(by_value[i]);
    }
    if exists|i: int| 0 <= i < by_value.len() && #[trigger] by_value[i] {
        let i = choose|i: int| 0 <= i < by_value.len() && #[trigger] by_value[i];
        assert(filter_matches(app, entry@, AgentViewFilter::Eq { field, value: values@[i] }));
    }
}

/// A view with a filter shows exactly the agents that pass it, and one that sorts by agent shows
/// them by the label of their kind, those without one last.
pub proof fn views_show_and_sort(
    app: AppState,
    entries: &mut Vec<AgentPanelEntry>,
    view: AgentViewSetParams,
    filter: AgentViewFilter,
    entry: AgentPanelEntry,
    passes: bool,
    i: int,
    j: int,
)
    requires
        call_ensures(apply_agent_view, (&app, entries), ()),
        app.agent_view_override == Some(view),
        view.filter == Some(filter),
        call_ensures(matches_filter, (&app, &entry, &filter), passes),
    ensures
        final(entries)@.contains(entry) <==> old(entries)@.contains(entry) && passes,
        0 <= i < j < final(entries)@.len() && view.sort@.len() > 0 && view.sort@[0].field
            == AgentViewSortField::Builtin(AgentViewBuiltinSortField::Agent) ==> {
            let a = final(entries)@[i];
            let b = final(entries)@[j];
            &&& b.agent_kind_label is Some ==> a.agent_kind_label is Some
            &&& a.agent_kind_label is Some && b.agent_kind_label is Some ==> if view.sort@[0].order
                == AgentViewSortOrder::Asc {
                !text_less(b.agent_kind_label->0@, a.agent_kind_label->0@)
            } else {
                !text_less(a.agent_kind_label->0@, b.agent_kind_label->0@)
            }
        },
{
    views_show_what_passes(app, old(entries)@, final(entries)@, entry);
    if 0 <= i < j < final(entries)@.len() && view.sort@.len() > 0 && view.sort@[0].field
        == AgentViewSortField::Builtin(AgentViewBuiltinSortField::Agent) {
        views_sort_by_agent(app, old(entries)@, final(entries)@, view, i, j);
    }
}

/// In a sorted view no agent stands after one that compares greater.
pub proof fn views_agree_with_comparisons(
    app: AppState,
    entries: &mut Vec<AgentPanelEntry>,
    view: AgentViewSetParams,
    sorts: &[AgentViewSort],
    i: int,
    j: int,
    ordering: Ordering,
)
    requires
        call_ensures(apply_agent_view, (&app, entries), ()),
        app.agent_view_override == Some(view),
        view.sort@.len() > 0,
        sorts@ == view.sort@,
        0 <= i < j < final(entries)@.len(),
        call_ensures(
            compare_entries,
            (&app, &final(entries)@[i], &final(entries)@[j], sorts),
            ordering,
        ),
    ensures
        ordering != Ordering::Greater,
{
    sorted_views_are_in_order(app, old(entries)@, final(entries)@, view, i, j);
}

/// The panel of an app without a view that goes by spaces shows all agents: the local ones, then the
/// remote ones, in the order in which they stand.
pub proof fn panels_show_the_app(app: AppState, entries: Vec<AgentPanelEntry>)
    requires
        call_ensures(agent_panel_entries, (&app,), entries),
        app.agent_view_override is None,
        app.agent_panel_sort == AgentPanelSort::Spaces,
    ensures
        unfiltered_entries(app, entries@),
{
}

/// A session snapshot reports the state of the app, the answer to a request carries its identifier,
/// and neither changes the app.
pub proof fn snapshots_report_the_app(
    app: &mut App,
    id: String,
    response: SuccessResponse,
    whole: App,
    snapshot: SessionSnapshot,
)
    requires
        call_ensures(App::handle_session_snapshot, (app, id), response),
        call_ensures(App::session_snapshot, (&whole,), snapshot),
    ensures
        response.id == id,
        *final(app) == *old(app),
        response.result matches ResponseResult::SessionSnapshot { snapshot } && reports(
            *snapshot,
            old(app).state,
        ),
        reports(snapshot, whole.state),
{
}

/// A remote agent is reported under the workspace, the tab and the pane that are stored of it, each
/// under its own identifier.
pub proof fn remote_agents_are_reported_under_their_identifiers(
    app: App,
    infos: Vec<RemoteAgentInfo>,
    k: int,
)
    requires
        call_ensures(App::remote_agent_infos, (&app,), infos),
        0 <= k < infos@.len(),
    ensures
        exists|key: Seq<char>, pane: Seq<char>|
            #![trigger app.state.remote_agents@[key].agents.contains_key(pane)]
            {
                let hosts = app.state.remote_agents@;
                let stored = hosts[key].agents[pane].presentation;
                &&& hosts.contains_key(key)
                &&& hosts[key].agents.contains_key(pane)
                &&& infos@[k].workspace_id@ == stored.workspace_id
                &&& infos@[k].tab_id@ == stored.tab_id
                &&& infos@[k].pane_id@ == stored.pane_id
                &&& infos@[k].pane_id@ == pane
                &&& infos@[k].workspace_label@ == stored.workspace_label
                &&& infos@[k].source_label@ == hosts[key].label
                &&& infos@[k].source_online == hosts[key].online
            },
{
    let hosts = app.state.remote_agents@;
    let rows = lemma_rows_of_infos(app, infos);
    assert(remote_info_models(infos@)[k] == infos@[k]@);
    assert(remote_agent_models(rows).len() == infos@.len());
    rows_show_what_is_stored(rows, hosts, k);
    let key = rows[k].host_key;
    let pane = rows[k].presentation.pane_id;
    assert(hosts[key].agents.contains_key(pane));
}

proof fn lemma_rows_of_infos(app: App, infos: Vec<RemoteAgentInfo>) -> (rows: Seq<PanelModel>)
    requires
        call_ensures(App::remote_agent_infos, (&app,), infos),
    ensures
        is_panel(rows, app.state.remote_agents@),
        remote_info_models(infos@) == remote_agent_models(rows),
        rows.len() == infos@.len(),
{
    let rows = choose|rows: Seq<PanelModel>| #[trigger]
        is_panel(rows, app.state.remote_agents@) && remote_info_models(infos@)
            == remote_agent_models(rows);
    assert(is_panel(rows, app.state.remote_agents@) && remote_info_models(infos@)
        == remote_agent_models(rows));
    assert(remote_agent_models(rows).len() == rows.len());
    assert(remote_info_models(infos@).len() == infos@.len());
    rows
}

/// A view is accepted if and only if its source, its label and its filter are, and it has no more
/// than 8 sort fields, each of them valid; one that is refused says why. What it filters and sorts
/// by is left as it is.
pub proof fn views_are_accepted_or_say_why(
    view: &mut AgentViewSetParams,
    result: Result<(), String>,
)
    requires
        call_ensures(validate_agent_view, (view,), result),
    ensures
        result is Ok <==> {
            &&& normal_source(old(view).source@) is Ok
            &&& (old(view).label matches Some(label) ==> normal_label(label@) is Ok)
            &&& filter_fault(old(view).filter) is None
            &&& old(view).sort@.len() <= 8
            &&& forall|i: int|
                0 <= i < old(view).sort@.len() ==> sort_field_fault(
                    (#[trigger] old(view).sort@[i]).field,
                ) is None
        },
        result matches Err(error) ==> view_fault(*old(view)) == Some(error@),
        result is Ok ==> final(view).source@ == trimmed(old(view).source@) && (
        old(view).label matches Some(label) ==> final(view).label is Some && final(view).label->0@
            == label_chars(label@)),
        final(view).filter == old(view).filter,
        final(view).sort == old(view).sort,
{
    accepted_views(*old(view));
}

/// A source is given back without the white space around it, a label without that and without
/// control characters, and a token is accepted as it is.
pub proof fn names_are_given_back_clean(
    name: &str,
    source: Result<String, String>,
    label: Result<String, String>,
    token: Result<(), String>,
)
    requires
        call_ensures(validate_agent_view_source, (name,), source),
        call_ensures(normalize_label, (name,), label),
        call_ensures(validate_token, (name,), token),
    ensures
        source matches Ok(text) ==> text@ == trimmed(name@) && 1 <= text@.len() <= 120,
        label is Ok <==> 1 <= label_chars(name@).len() <= 32,
        label matches Ok(text) ==> text@ == label_chars(name@),
        token is Ok <==> 1 <= name@.len() <= 32 && forall|i: int|
            0 <= i < name@.len() ==> (48 <= (#[trigger] name@[i] as int) <= 57 || 65 <= (
            name@[i] as int) <= 90 || 97 <= (name@[i] as int) <= 122 || (name@[i] as int) == 45 || (
            name@[i] as int) == 95),
{
    tokens_are_checked(name@);
}

/// Remote texts are sanitized with their limit, whether they stand alone, may be absent or are
/// metadata; an identifier is accepted if and only if it is valid.
pub proof fn remote_texts_are_sanitized(
    text: &str,
    option: Option<String>,
    values: MetadataMap,
    max_chars: usize,
    kind: &str,
    clean: String,
    clean_option: Option<String>,
    clean_values: MetadataMap,
    checked: Result<(), String>,
    key: Seq<char>,
)
    requires
        call_ensures(sanitize_remote_text, (text, max_chars), clean),
        call_ensures(sanitize_remote_option, (&option, max_chars), clean_option),
        call_ensures(sanitize_remote_map, (values, max_chars), clean_values),
        call_ensures(validate_remote_id, (kind, text), checked),
    ensures
        clean@ == sanitized(text@, max_chars as nat),
        option is None ==> clean_option is None,
        option matches Some(given) ==> clean_option is Some && clean_option->0@ == sanitized(
            given@,
            max_chars as nat,
        ),
        clean_values@.dom().contains(key) <==> values@.dom().contains(key) && metadata_key(key),
        clean_values@.dom().contains(key) ==> clean_values@[key] == sanitized(
            values@[key],
            max_chars as nat,
        ),
        checked is Ok <==> valid_remote_id(text@),
        checked matches Err(error) ==> error@ == "remote "@ + kind@ + " id is invalid"@,
{
}

/// Statuses are read by their names and shown by the state they stand for.
pub proof fn statuses_are_read_and_shown(
    name: &str,
    status: AgentStatus,
    state: (AgentState, bool),
    shown: AgentStatus,
)
    requires
        call_ensures(agent_status_or_unknown, (name,), status),
        call_ensures(presentation_state, (status,), state),
        call_ensures(agent_status_for_presentation, (state.0, state.1), shown),
    ensures
        shown == status,
        status is Idle <==> name@ == "idle"@,
        status is Working <==> name@ == "working"@,
        status is Blocked <==> name@ == "blocked"@,
        status is Done <==> name@ == "done"@,
        state.1 <==> !(status is Done),
        state.0 is Idle <==> status is Idle || status is Done,
        state.0 is Working <==> status is Working,
        state.0 is Blocked <==> status is Blocked,
{
    statuses_have_their_names(name@);
}

/// The key of a source gives back its target and its session, where the target holds no separator;
/// a source is labelled by its own label or else its target, and by its session unless that is the
/// default one.
pub proof fn sources_are_known_and_labelled(
    source: RemoteAgentSourceConfig,
    key: RemoteHostKey,
    label: String,
    tab: String,
    pane: String,
    id: &str,
    number: usize,
)
    requires
        call_ensures(RemoteHostKey::for_source, (&source,), key),
        call_ensures(RemoteAgentSourceConfig::fleet_label, (&source,), label),
        call_ensures(public_tab_id_for_number, (id, number), tab),
        call_ensures(public_pane_id_for_number, (id, number), pane),
    ensures
        key.0@ == source.target@ + seq!['\u{1f}'] + source.session@,
        source.session@ == "default"@ ==> (source.label matches Some(name) ==> label@ == name@),
        source.session@ == "default"@ && source.label is None ==> label@ == source.target@,
        source.session@ != "default"@ ==> (source.label matches Some(name) ==> label@ == name@
            + "/"@ + source.session@),
        source.session@ != "default"@ && source.label is None ==> label@ == source.target@ + "/"@
            + source.session@,
        tab@ == id@ + ":t"@ + decimal(number as nat),
        pane@ == id@ + ":p"@ + decimal(number as nat),
{
    assert(key.0@ =~= source.target@ + seq!['\u{1f}'] + source.session@);
}

/// Texts are compared by their characters, trimmed of white space, and numbers written in decimal.
pub proof fn texts_are_compared_and_written(
    a: &str,
    b: &str,
    n: u64,
    same: bool,
    before: bool,
    trim: String,
    number: String,
)
    requires
        call_ensures(same_text, (a, b), same),
        call_ensures(text_before, (a, b), before),
        call_ensures(trim_text, (a,), trim),
        call_ensures(decimal_text, (n,), number),
    ensures
        same <==> a@ == b@,
        before <==> text_less(a@, b@),
        trim@ == trimmed(a@),
        number@ == decimal(n as nat),
{
}

/// Only agents of local panes have a local target, which is where they stand.
pub proof fn local_targets_are_those_of_local_agents(
    entry: AgentPanelEntry,
    target: Option<(usize, usize, usize)>,
)
    requires
        call_ensures(AgentPanelEntry::local_target, (&entry,), target),
    ensures
        entry.target is Remote <==> target is None,
        entry.target matches AgentPanelTarget::Local { ws_idx, tab_idx, pane_idx } ==> target
            == Some((ws_idx, tab_idx, pane_idx)),
{
}

/// The value of a property is what stands in the field of the agent, and the value that a sort goes
/// by what it is named after; both are absent where the field is.
pub proof fn values_are_those_of_the_agent(
    app: AppState,
    entry: AgentPanelEntry,
    field: AgentViewBuiltinField,
    sort: AgentViewBuiltinSortField,
    value: Option<EvalValue>,
    sorted: Option<EvalValue>,
)
    requires
        call_ensures(field_value, (&app, &entry, &AgentViewField::Builtin(field)), value),
        call_ensures(sort_value, (&app, &entry, &AgentViewSortField::Builtin(sort)), sorted),
    ensures
        field == AgentViewBuiltinField::WorkspaceId ==> is_text(value, entry.view_workspace_id@),
        field == AgentViewBuiltinField::TabId ==> is_text(value, entry.view_tab_id@),
        field == AgentViewBuiltinField::PaneId ==> is_text(value, entry.view_pane_id@),
        field == AgentViewBuiltinField::Seen ==> value == Some(EvalValue::Bool(entry.seen)),
        field == AgentViewBuiltinField::Agent ==> match entry.agent_kind_label {
            Some(label) => is_text(value, label@),
            None => value is None,
        },
        field == AgentViewBuiltinField::StateChangeSeq ==> match entry.last_agent_state_change_seq {
            Some(number) => value == Some(EvalValue::Number(number)),
            None => value is None,
        },
        sort == AgentViewBuiltinSortField::Agent ==> match entry.agent_kind_label {
            Some(label) => is_text(sorted, label@),
            None => sorted is None,
        },
        sort == AgentViewBuiltinSortField::Seen ==> sorted == Some(EvalValue::Bool(entry.seen)),
        sort == AgentViewBuiltinSortField::StateChangeSeq
            ==> match entry.last_agent_state_change_seq {
            Some(number) => sorted == Some(EvalValue::Number(number)),
            None => sorted is None,
        },
        sort == AgentViewBuiltinSortField::TabOrder ==> sorted == Some(
            EvalValue::Number(entry.order.2 as u64),
        ),
        sort == AgentViewBuiltinSortField::PaneOrder ==> sorted == Some(
            EvalValue::Number(entry.order.3 as u64),
        ),
        sort == AgentViewBuiltinSortField::Attention ==> sorted == Some(
            EvalValue::Number(
                match entry.state {
                    AgentState::Blocked => 4,
                    AgentState::Idle => if entry.seen {
                        1
                    } else {
                        3
                    },
                    AgentState::Working => 2,
                    AgentState::Unknown => 0,
                },
            ),
        ),
{
}

/// A value is a text.
pub open spec fn is_text(value: Option<EvalValue>, text: Seq<char>) -> bool {
    value matches Some(EvalValue::String(held)) && held@ == text
}

/// A token is the value that is stored under its name, and a filter by a token or a sort by it
/// finds that value.
pub proof fn tokens_are_found_by_their_names(
    app: AppState,
    entry: AgentPanelEntry,
    token: String,
    value: Option<EvalValue>,
    sorted: Option<EvalValue>,
)
    requires
        call_ensures(field_value, (&app, &entry, &AgentViewField::Token { token }), value),
        call_ensures(sort_value, (&app, &entry, &AgentViewSortField::Token { token }), sorted),
    ensures
        entry.tokens@.dom().contains(token@) ==> is_text(value, entry.tokens@[token@]) && is_text(
            sorted,
            entry.tokens@[token@],
        ),
        !entry.tokens@.dom().contains(token@) ==> value is None && sorted is None,
{
}

/// A key gives back the target before its first separator and the session behind it.
pub proof fn keys_are_split_at_the_separator(key: &str, parts: (&str, &str), at: int)
    requires
        call_ensures(RemoteHostKey::split_key, (key,), parts),
        0 <= at < key@.len(),
        key@[at] == '\u{1f}',
        forall|i: int| 0 <= i < at ==> #[trigger] key@[i] != '\u{1f}',
    ensures
        parts.0@ == key@.take(at),
        parts.1@ == key@.skip(at + 1),
{
    let target = key@.take(at);
    let session = key@.skip(at + 1);
    assert(!target.contains('\u{1f}')) by {
        if target.contains('\u{1f}') {
            let i = choose|i: int| 0 <= i < target.len() && target[i] == '\u{1f}';
            assert(key@[i] == '\u{1f}');
        }
    }
    assert(key@ =~= host_key(target, session));
    key_parts_read_back(target, session);
}

} // verus!
