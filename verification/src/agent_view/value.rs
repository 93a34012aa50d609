//! The values of agents that views filter and sort by.

use vstd::prelude::*;

use crate::agent_view::entry::{AgentPanelEntry, EntryModel};
use crate::detect::AgentState;
use crate::ordered_map::MetadataMap;
use crate::schema::view::{
    AgentViewBuiltinField, AgentViewBuiltinSortField, AgentViewContext, AgentViewField,
    AgentViewFilter, AgentViewSortField, AgentViewValue,
};
use crate::schema::{agent_status_for_presentation, status_for_state, status_text, AgentStatus};
use crate::state::{
    presented_workspace, public_tab_id_for_number, tab_id_text, AppState, Mode, Workspace,
};

verus! {

/// A value of an agent.
#[derive(Debug)]
pub enum EvalValue {
    String(String),
    Bool(bool),
    Number(u64),
    Order([usize; 4]),
}

/// A value of an agent, as mathematical values.
pub enum EvalModel {
    Text(Seq<char>),
    Bool(bool),
    Number(u64),
    Order(Seq<usize>),
}

impl View for EvalValue {
    type V = EvalModel;

    open spec fn view(&self) -> EvalModel {
        match self {
            EvalValue::String(text) => EvalModel::Text(text@),
            EvalValue::Bool(flag) => EvalModel::Bool(*flag),
            EvalValue::Number(number) => EvalModel::Number(*number),
            EvalValue::Order(order) => EvalModel::Order(order@),
        }
    }
}

pub open spec fn option_value(value: Option<EvalValue>) -> Option<EvalModel> {
    match value {
        Some(value) => Some(value@),
        None => None,
    }
}

/// The value of a text that may be absent.
pub open spec fn text_value(text: Option<Seq<char>>) -> Option<EvalModel> {
    match text {
        Some(text) => Some(EvalModel::Text(text)),
        None => None,
    }
}

/// The value of a number that may be absent.
pub open spec fn number_value(number: Option<u64>) -> Option<EvalModel> {
    match number {
        Some(number) => Some(EvalModel::Number(number)),
        None => None,
    }
}

/// The value of a metadata token.
pub open spec fn token_value(tokens: Map<Seq<char>, Seq<char>>, token: Seq<char>) -> Option<
    EvalModel,
> {
    if tokens.dom().contains(token) {
        Some(EvalModel::Text(tokens[token]))
    } else {
        None
    }
}

/// How much attention an agent needs.
pub open spec fn attention(state: AgentState, seen: bool) -> u8 {
    match state {
        AgentState::Blocked => 4,
        AgentState::Idle => if seen {
            1
        } else {
            3
        },
        AgentState::Working => 2,
        AgentState::Unknown => 0,
    }
}

/// How much attention an agent needs: one that is blocked the most, then one that is done and not
/// yet seen, one that works, one that is idle, and one of which nothing is known.
pub fn tab_attention_priority(state: AgentState, seen: bool) -> (priority: u8)
    ensures
        priority == attention(state, seen),
{
    match state {
        AgentState::Blocked => 4,
        AgentState::Idle => if seen {
            1
        } else {
            3
        },
        AgentState::Working => 2,
        AgentState::Unknown => 0,
    }
}

/// The name of the status of an agent.
pub fn status_name(state: AgentState, seen: bool) -> (name: String)
    ensures
        name@ == status_text(status_for_state(state, seen)),
{
    match agent_status_for_presentation(state, seen) {
        AgentStatus::Idle => "idle".to_owned(),
        AgentStatus::Working => "working".to_owned(),
        AgentStatus::Blocked => "blocked".to_owned(),
        AgentStatus::Done => "done".to_owned(),
        AgentStatus::Unknown => "unknown".to_owned(),
    }
}

pub open spec fn builtin_value(entry: EntryModel, field: AgentViewBuiltinField) -> Option<
    EvalModel,
> {
    match field {
        AgentViewBuiltinField::Status => Some(
            EvalModel::Text(status_text(status_for_state(entry.state, entry.seen))),
        ),
        AgentViewBuiltinField::WorkspaceId => Some(EvalModel::Text(entry.view_workspace_id)),
        AgentViewBuiltinField::TabId => Some(EvalModel::Text(entry.view_tab_id)),
        AgentViewBuiltinField::PaneId => Some(EvalModel::Text(entry.view_pane_id)),
        AgentViewBuiltinField::Agent => text_value(entry.agent_kind_label),
        AgentViewBuiltinField::Seen => Some(EvalModel::Bool(entry.seen)),
        AgentViewBuiltinField::StateChangeSeq => number_value(entry.last_agent_state_change_seq),
    }
}

fn option_text_value(text: &Option<String>) -> (value: Option<EvalValue>)
    ensures
        option_value(value) == text_value(
            match *text {
                Some(text) => Some(text@),
                None => None,
            },
        ),
{
    match text {
        Some(text) => Some(EvalValue::String(text.clone())),
        None => None,
    }
}

fn option_number_value(number: Option<u64>) -> (value: Option<EvalValue>)
    ensures
        option_value(value) == number_value(number),
{
    match number {
        Some(number) => Some(EvalValue::Number(number)),
        None => None,
    }
}

fn metadata_value(tokens: &MetadataMap, token: &str) -> (value: Option<EvalValue>)
    ensures
        option_value(value) == token_value(tokens@, token@),
{
    match tokens.get(token) {
        Some(text) => Some(EvalValue::String(text.clone())),
        None => None,
    }
}

/// The value of a property of an agent.
pub fn builtin_field_value(
    _app: &AppState,
    entry: &AgentPanelEntry,
    field: AgentViewBuiltinField,
) -> (value: Option<EvalValue>)
    ensures
        option_value(value) == builtin_value(entry@, field),
{
    match field {
        AgentViewBuiltinField::Status => Some(
            EvalValue::String(status_name(entry.state, entry.seen)),
        ),
        AgentViewBuiltinField::WorkspaceId => Some(
            EvalValue::String(entry.view_workspace_id.clone()),
        ),
        AgentViewBuiltinField::TabId => Some(EvalValue::String(entry.view_tab_id.clone())),
        AgentViewBuiltinField::PaneId => Some(EvalValue::String(entry.view_pane_id.clone())),
        AgentViewBuiltinField::Agent => option_text_value(&entry.agent_kind_label),
        AgentViewBuiltinField::Seen => Some(EvalValue::Bool(entry.seen)),
        AgentViewBuiltinField::StateChangeSeq => option_number_value(
            entry.last_agent_state_change_seq,
        ),
    }
}

pub open spec fn value_of_field(entry: EntryModel, field: AgentViewField) -> Option<EvalModel> {
    match field {
        AgentViewField::Builtin(field) => builtin_value(entry, field),
        AgentViewField::Token { token } => token_value(entry.tokens, token@),
    }
}

/// The value that a filter looks at.
pub fn field_value(app: &AppState, entry: &AgentPanelEntry, field: &AgentViewField) -> (value:
    Option<EvalValue>)
    ensures
        option_value(value) == value_of_field(entry@, *field),
{
    match field {
        AgentViewField::Builtin(field) => builtin_field_value(app, entry, *field),
        AgentViewField::Token { token } => metadata_value(&entry.tokens, token.as_str()),
    }
}

/// The position of the workspace that the app presents.
pub fn presented_workspace_idx(app: &AppState) -> (idx: Option<usize>)
    ensures
        idx == presented_workspace(*app),
{
    if app.mode == Mode::Navigate {
        if app.selected < app.workspaces.len() {
            Some(app.selected)
        } else {
            None
        }
    } else {
        app.active
    }
}

pub open spec fn value_in_workspace(workspace: Workspace, context: AgentViewContext) -> Option<
    EvalModel,
> {
    match context {
        AgentViewContext::CurrentWorkspaceId => Some(EvalModel::Text(workspace.id@)),
        AgentViewContext::CurrentTabId => if workspace.active_tab < workspace.tabs@.len() {
            Some(
                EvalModel::Text(
                    tab_id_text(
                        workspace.id@,
                        workspace.tabs@[workspace.active_tab as int].number as nat,
                    ),
                ),
            )
        } else {
            None
        },
    }
}

pub open spec fn value_of_context(app: AppState, context: AgentViewContext) -> Option<EvalModel> {
    match presented_workspace(app) {
        Some(idx) => if idx < app.workspaces@.len() {
            value_in_workspace(app.workspaces@[idx as int], context)
        } else {
            None
        },
        None => None,
    }
}

/// The identifier of the workspace or the tab that the app presents.
pub fn context_value(app: &AppState, context: AgentViewContext) -> (value: Option<EvalValue>)
    ensures
        option_value(value) == value_of_context(*app, context),
{
    let idx = match presented_workspace_idx(app) {
        Some(idx) => idx,
        None => {
            return None;
        },
    };
    if idx >= app.workspaces.len() {
        return None;
    }
    let workspace = &app.workspaces[idx];
    match context {
        AgentViewContext::CurrentWorkspaceId => Some(EvalValue::String(workspace.id.clone())),
        AgentViewContext::CurrentTabId => match workspace.public_tab_number(workspace.active_tab) {
            Some(number) => Some(
                EvalValue::String(public_tab_id_for_number(workspace.id.as_str(), number)),
            ),
            None => None,
        },
    }
}

pub open spec fn value_of_operand(app: AppState, value: AgentViewValue) -> Option<EvalModel> {
    match value {
        AgentViewValue::String(text) => Some(EvalModel::Text(text@)),
        AgentViewValue::Bool(flag) => Some(EvalModel::Bool(flag)),
        AgentViewValue::Number(number) => Some(EvalModel::Number(number)),
        AgentViewValue::Context { context } => value_of_context(app, context),
    }
}

/// The value that a filter compares with.
pub fn operand_value(app: &AppState, value: &AgentViewValue) -> (result: Option<EvalValue>)
    ensures
        option_value(result) == value_of_operand(*app, *value),
{
    match value {
        AgentViewValue::String(text) => Some(EvalValue::String(text.clone())),
        AgentViewValue::Bool(flag) => Some(EvalValue::Bool(*flag)),
        AgentViewValue::Number(number) => Some(EvalValue::Number(*number)),
        AgentViewValue::Context { context } => context_value(app, *context),
    }
}

pub open spec fn builtin_sort_value(entry: EntryModel, field: AgentViewBuiltinSortField) -> Option<
    EvalModel,
> {
    match field {
        AgentViewBuiltinSortField::WorkspaceOrder => Some(
            EvalModel::Order(seq![entry.order.0, entry.order.1, 0, 0]),
        ),
        AgentViewBuiltinSortField::TabOrder => Some(EvalModel::Number(entry.order.2 as u64)),
        AgentViewBuiltinSortField::PaneOrder => Some(EvalModel::Number(entry.order.3 as u64)),
        AgentViewBuiltinSortField::Attention => Some(
            EvalModel::Number(attention(entry.state, entry.seen) as u64),
        ),
        AgentViewBuiltinSortField::Status => Some(
            EvalModel::Text(status_text(status_for_state(entry.state, entry.seen))),
        ),
        AgentViewBuiltinSortField::Agent => text_value(entry.agent_kind_label),
        AgentViewBuiltinSortField::Seen => Some(EvalModel::Bool(entry.seen)),
        AgentViewBuiltinSortField::StateChangeSeq => number_value(
            entry.last_agent_state_change_seq,
        ),
    }
}

pub open spec fn value_to_sort(entry: EntryModel, field: AgentViewSortField) -> Option<EvalModel> {
    match field {
        AgentViewSortField::Token { token } => token_value(entry.tokens, token@),
        AgentViewSortField::Builtin(field) => builtin_sort_value(entry, field),
    }
}

/// The value that a sort goes by.
pub fn sort_value(_app: &AppState, entry: &AgentPanelEntry, field: &AgentViewSortField) -> (value:
    Option<EvalValue>)
    ensures
        option_value(value) == value_to_sort(entry@, *field),
{
    match field {
        AgentViewSortField::Token { token } => metadata_value(&entry.tokens, token.as_str()),
        AgentViewSortField::Builtin(field) => match field {
            AgentViewBuiltinSortField::WorkspaceOrder => {
                let order: [usize; 4] = [entry.order.0, entry.order.1, 0, 0];
                proof {
                    assert(order@ =~= seq![entry.order.0, entry.order.1, 0, 0]);
                }
                Some(EvalValue::Order(order))
            },
            AgentViewBuiltinSortField::TabOrder => Some(EvalValue::Number(entry.order.2 as u64)),
            AgentViewBuiltinSortField::PaneOrder => Some(EvalValue::Number(entry.order.3 as u64)),
            AgentViewBuiltinSortField::Attention => Some(
                EvalValue::Number(tab_attention_priority(entry.state, entry.seen) as u64),
            ),
            AgentViewBuiltinSortField::Status => Some(
                EvalValue::String(status_name(entry.state, entry.seen)),
            ),
            AgentViewBuiltinSortField::Agent => option_text_value(&entry.agent_kind_label),
            AgentViewBuiltinSortField::Seen => Some(EvalValue::Bool(entry.seen)),
            AgentViewBuiltinSortField::StateChangeSeq => option_number_value(
                entry.last_agent_state_change_seq,
            ),
        },
    }
}

/// Whether two values are the same.
fn same_value(a: &EvalValue, b: &EvalValue) -> (same: bool)
    ensures
        same == (a@ == b@),
{
    match (a, b) {
        (EvalValue::String(a), EvalValue::String(b)) => *a == *b,
        (EvalValue::Bool(a), EvalValue::Bool(b)) => *a == *b,
        (EvalValue::Number(a), EvalValue::Number(b)) => *a == *b,
        (EvalValue::Order(a), EvalValue::Order(b)) => {
            let same = a[0] == b[0] && a[1] == b[1] && a[2] == b[2] && a[3] == b[3];
            proof {
                if same {
                    assert(a@ =~= b@);
                }
            }
            same
        },
        _ => false,
    }
}

/// Whether two values that may be absent are the same.
fn same_option_value(a: &Option<EvalValue>, b: &Option<EvalValue>) -> (same: bool)
    ensures
        same == (option_value(*a) == option_value(*b)),
{
    match (a, b) {
        (Some(a), Some(b)) => same_value(a, b),
        (None, None) => true,
        _ => false,
    }
}

/// Whether an agent passes a filter. Values that are both absent count as equal.
pub open spec fn filter_matches(app: AppState, entry: EntryModel, filter: AgentViewFilter) -> bool
    decreases filter,
{
    match filter {
        AgentViewFilter::All { filters } => forall|i: int|
            0 <= i < filters@.len() ==> filter_matches(app, entry, #[trigger] filters@[i]),
        AgentViewFilter::Any { filters } => exists|i: int|
            0 <= i < filters@.len() && filter_matches(app, entry, #[trigger] filters@[i]),
        AgentViewFilter::Not { filter } => !filter_matches(app, entry, *filter),
        AgentViewFilter::Eq { field, value } => value_of_field(entry, field) == value_of_operand(
            app,
            value,
        ),
        AgentViewFilter::In { field, values } => exists|i: int|
            0 <= i < values@.len() && value_of_field(entry, field) == value_of_operand(
                app,
                #[trigger] values@[i],
            ),
        AgentViewFilter::Exists { field } => value_of_field(entry, field) is Some,
    }
}

/// Whether an agent passes a filter.
pub fn matches_filter(app: &AppState, entry: &AgentPanelEntry, filter: &AgentViewFilter) -> (matched:
    bool)
    ensures
        matched == filter_matches(*app, entry@, *filter),
    decreases *filter,
{
    match filter {
        AgentViewFilter::All { filters } => {
            let ghost whole = *filter;
            let mut i: usize = 0;
            while i < filters.len()
                invariant
                    i <= filters.len(),
                    whole == *filter,
                    whole == (AgentViewFilter::All { filters: *filters }),
                    forall|k: int|
                        0 <= k < i ==> filter_matches(*app, entry@, #[trigger] filters@[k]),
                decreases filters.len() - i,
            {
                proof {
                    assert(decreases_to!(whole => whole->All_filters));
                }
                if !matches_filter(app, entry, &filters[i]) {
                    proof {
                        assert(!filter_matches(*app, entry@, filters@[i as int]));
                    }
                    return false;
                }
                i = i + 1;
            }
            true
        },
        AgentViewFilter::Any { filters } => {
            let ghost whole = *filter;
            let mut i: usize = 0;
            while i < filters.len()
                invariant
                    i <= filters.len(),
                    whole == *filter,
                    whole == (AgentViewFilter::Any { filters: *filters }),
                    forall|k: int|
                        0 <= k < i ==> !filter_matches(*app, entry@, #[trigger] filters@[k]),
                decreases filters.len() - i,
            {
                proof {
                    assert(decreases_to!(whole => whole->Any_filters));
                }
                if matches_filter(app, entry, &filters[i]) {
                    proof {
                        assert(filter_matches(*app, entry@, filters@[i as int]));
                    }
                    return true;
                }
                i = i + 1;
            }
            false
        },
        AgentViewFilter::Not { filter } => !matches_filter(app, entry, filter),
        AgentViewFilter::Eq { field, value } => same_option_value(
            &field_value(app, entry, field),
            &operand_value(app, value),
        ),
        AgentViewFilter::In { field, values } => {
            let actual = field_value(app, entry, field);
            let mut i: usize = 0;
            while i < values.len()
                invariant
                    i <= values.len(),
                    *filter == (AgentViewFilter::In { field: *field, values: *values }),
                    option_value(actual) == value_of_field(entry@, *field),
                    forall|k: int|
                        0 <= k < i ==> value_of_field(entry@, *field) != value_of_operand(
                            *app,
                            #[trigger] values@[k],
                        ),
                decreases values.len() - i,
            {
                if same_option_value(&actual, &operand_value(app, &values[i])) {
                    proof {
                        assert(value_of_field(entry@, *field) == value_of_operand(
                            *app,
                            values@[i as int],
                        ));
                    }
                    return true;
                }
                i = i + 1;
            }
            false
        },
        AgentViewFilter::Exists { field } => field_value(app, entry, field).is_some(),
    }
}

} // verus!
